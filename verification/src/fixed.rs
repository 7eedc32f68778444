//! Exact conversion of binary floating-point numbers, given by their IEEE 754
//! bit patterns, to scaled integers.
//!
//! The library computes with integers only. A quantity that an outside
//! decoder delivers in binary floating point is taken over by its bit
//! pattern and turned into thousandths (or another fixed scale) here, with
//! rounding to the nearest integer, ties away from zero.

use vstd::arithmetic::div_mod::{
    lemma_div_denominator, lemma_div_is_ordered_by_denominator, lemma_div_plus_one,
    lemma_div_pos_is_pos,
};
use vstd::prelude::*;

verus! {

/// `2^n`.
pub open spec fn two_to(n: nat) -> nat
    decreases n,
{
    if n == 0 {
        1
    } else {
        2 * two_to((n - 1) as nat)
    }
}

/// Powers of two are positive and grow with the exponent.
pub proof fn lemma_two_to_monotone(a: nat, b: nat)
    requires
        a <= b,
    ensures
        1 <= two_to(a) <= two_to(b),
    decreases b,
{
    if a < b {
        lemma_two_to_monotone(a, (b - 1) as nat);
    } else if a > 0 {
        lemma_two_to_monotone((a - 1) as nat, (a - 1) as nat);
    }
}

/// A finite binary floating-point value: `mantissa * 2^exponent`, negated
/// when `negative`.
#[derive(Debug, Clone, Copy, PartialEq, Eq, Structural)]
pub struct Finite {
    pub negative: bool,
    pub mantissa: u64,
    pub exponent: i32,
}

/// The value behind a single-precision bit pattern: sign in bit 31, biased
/// exponent in bits 23 to 30, fraction in bits 0 to 22. Infinities and NaN
/// (biased exponent 255) have none.
pub open spec fn single_parts(bits: u32) -> Option<Finite> {
    let fraction = bits % 0x80_0000;
    let biased = (bits / 0x80_0000) % 0x100;
    let negative = bits >= 0x8000_0000;
    if biased == 255 {
        None
    } else if biased == 0 {
        Some(Finite { negative, mantissa: fraction as u64, exponent: (-149) as i32 })
    } else {
        Some(
            Finite {
                negative,
                mantissa: (fraction + 0x80_0000) as u64,
                exponent: (biased - 150) as i32,
            },
        )
    }
}

/// The value behind a double-precision bit pattern: sign in bit 63, biased
/// exponent in bits 52 to 62, fraction in bits 0 to 51. Infinities and NaN
/// (biased exponent 2047) have none.
pub open spec fn double_parts(bits: u64) -> Option<Finite> {
    let fraction = bits % 0x10_0000_0000_0000;
    let biased = (bits / 0x10_0000_0000_0000) % 0x800;
    let negative = bits >= 0x8000_0000_0000_0000;
    if biased == 2047 {
        None
    } else if biased == 0 {
        Some(Finite { negative, mantissa: fraction as u64, exponent: (-1074) as i32 })
    } else {
        Some(
            Finite {
                negative,
                mantissa: (fraction + 0x10_0000_0000_0000) as u64,
                exponent: (biased - 1075) as i32,
            },
        )
    }
}

/// `|value| * scale`, rounded to the nearest integer, ties upwards.
pub open spec fn magnitude(f: Finite, scale: nat) -> nat {
    if f.exponent >= 0 {
        f.mantissa as nat * scale * two_to(f.exponent as nat)
    } else {
        ((f.mantissa as int * scale as int + two_to((-f.exponent - 1) as nat)) / (two_to(
            (-f.exponent) as nat,
        ) as int)) as nat
    }
}

/// `value * scale`, rounded to the nearest integer, ties away from zero, and
/// limited to the symmetric range of `i64`.
pub open spec fn scaled(f: Finite, scale: nat) -> i64 {
    let m = magnitude(f, scale);
    let capped = if m > 0x7fff_ffff_ffff_ffff {
        0x7fff_ffff_ffff_ffff
    } else {
        m as int
    };
    if f.negative {
        (-capped) as i64
    } else {
        capped as i64
    }
}

/// A single-precision value times `scale` as an integer; none for infinities
/// and NaN.
pub open spec fn single_scaled(bits: u32, scale: nat) -> Option<i64> {
    match single_parts(bits) {
        Some(f) => Some(scaled(f, scale)),
        None => None,
    }
}

/// A double-precision value times `scale` as an integer; none for infinities
/// and NaN.
pub open spec fn double_scaled(bits: u64, scale: nat) -> Option<i64> {
    match double_parts(bits) {
        Some(f) => Some(scaled(f, scale)),
        None => None,
    }
}

/// Splits a single-precision bit pattern.
pub fn single_to_parts(bits: u32) -> (parts: Option<Finite>)
    ensures
        parts == single_parts(bits),
        parts.is_some() ==> parts.unwrap().mantissa < 0x100_0000,
{
    let fraction: u32 = bits % 0x80_0000;
    let biased: u32 = (bits / 0x80_0000) % 0x100;
    let negative: bool = bits >= 0x8000_0000;
    if biased == 255 {
        None
    } else if biased == 0 {
        Some(Finite { negative, mantissa: fraction as u64, exponent: -149 })
    } else {
        Some(
            Finite {
                negative,
                mantissa: (fraction + 0x80_0000) as u64,
                exponent: biased as i32 - 150,
            },
        )
    }
}

/// Splits a double-precision bit pattern.
pub fn double_to_parts(bits: u64) -> (parts: Option<Finite>)
    ensures
        parts == double_parts(bits),
        parts.is_some() ==> parts.unwrap().mantissa < 0x20_0000_0000_0000,
{
    let fraction: u64 = bits % 0x10_0000_0000_0000;
    let biased: u64 = (bits / 0x10_0000_0000_0000) % 0x800;
    let negative: bool = bits >= 0x8000_0000_0000_0000;
    if biased == 2047 {
        None
    } else if biased == 0 {
        Some(Finite { negative, mantissa: fraction, exponent: -1074 })
    } else {
        Some(
            Finite {
                negative,
                mantissa: fraction + 0x10_0000_0000_0000,
                exponent: biased as i32 - 1075,
            },
        )
    }
}

fn grown(x: u128, exponent: u32) -> (capped: u64)
    requires
        x < 0x1_0000_0000_0000_0000_0000_0000,
    ensures
        capped as int == if x * two_to(exponent as nat) > 0x7fff_ffff_ffff_ffff {
            0x7fff_ffff_ffff_ffff
        } else {
            x * two_to(exponent as nat)
        },
{
    let mut v: u128 = x;
    let mut j: u32 = 0;
    proof {
        assert(two_to(0) == 1);
        assert(x * two_to(0) == x);
    }
    while j < exponent && v <= 0x7fff_ffff_ffff_ffff
        invariant
            j <= exponent,
            v == x * two_to(j as nat),
            v < 0x1_0000_0000_0000_0000_0000_0000,
        decreases exponent - j,
    {
        proof {
            assert(x * two_to((j + 1) as nat) == (x * two_to(j as nat)) * 2) by (nonlinear_arith)
                requires
                    two_to((j + 1) as nat) == 2 * two_to(j as nat),
            ;
        }
        v = v * 2;
        j += 1;
    }
    proof {
        lemma_two_to_monotone(j as nat, exponent as nat);
        assert(x * two_to(j as nat) <= x * two_to(exponent as nat)) by (nonlinear_arith)
            requires
                two_to(j as nat) <= two_to(exponent as nat),
                x >= 0,
        ;
    }
    if v > 0x7fff_ffff_ffff_ffff {
        0x7fff_ffff_ffff_ffff
    } else {
        v as u64
    }
}

fn shrunk(x: u128, shift: u32) -> (rounded: u128)
    requires
        shift >= 1,
        x < 0x1_0000_0000_0000_0000_0000_0000,
    ensures
        rounded == (x as int + two_to((shift - 1) as nat)) / (two_to(shift as nat) as int),
        rounded <= x,
{
    let mut y: u128 = x;
    let mut j: u32 = 0;
    proof {
        assert(two_to(0) == 1);
    }
    while j < shift - 1 && y > 0
        invariant
            j <= shift - 1,
            y == (x as int) / (two_to(j as nat) as int),
            y <= x,
        decreases shift - 1 - j,
    {
        proof {
            lemma_two_to_monotone(j as nat, j as nat);
            lemma_div_denominator(x as int, two_to(j as nat) as int, 2);
            assert(two_to((j + 1) as nat) == two_to(j as nat) * 2);
        }
        y = y / 2;
        j += 1;
    }
    let ghost half = two_to((shift - 1) as nat) as int;
    proof {
        lemma_two_to_monotone(j as nat, (shift - 1) as nat);
        if j < shift - 1 {
            lemma_div_is_ordered_by_denominator(x as int, two_to(j as nat) as int, half);
            lemma_div_pos_is_pos(x as int, half);
        }
        assert(y == (x as int) / half);
        lemma_div_denominator(x + half, half, 2);
        lemma_div_plus_one(x as int, half);
        assert(two_to(shift as nat) == half * 2);
        assert((x as int + half) / (half * 2) == (1 + (x as int) / half) / 2);
    }
    (y + 1) / 2
}

/// `value * scale` as an integer.
pub fn scale_finite(f: &Finite, scale: u32) -> (r: i64)
    ensures
        r == scaled(*f, scale as nat),
{
    proof {
        assert(f.mantissa * scale < 0x1_0000_0000_0000_0000_0000_0000) by (nonlinear_arith)
            requires
                f.mantissa < 0x1_0000_0000_0000_0000,
                scale < 0x1_0000_0000,
        ;
    }
    let x: u128 = (f.mantissa as u128) * (scale as u128);
    let capped: u64 = if f.exponent >= 0 {
        proof {
            assert(f.mantissa as nat * scale as nat * two_to(f.exponent as nat) == x * two_to(
                f.exponent as nat,
            ));
        }
        grown(x, f.exponent as u32)
    } else {
        let shift: u32 = (-(f.exponent as i64)) as u32;
        let rounded: u128 = shrunk(x, shift);
        if rounded > 0x7fff_ffff_ffff_ffff {
            0x7fff_ffff_ffff_ffff
        } else {
            rounded as u64
        }
    };
    if f.negative {
        -(capped as i64)
    } else {
        capped as i64
    }
}

/// A single-precision value, given by its bits, times `scale`.
pub fn scale_single(bits: u32, scale: u32) -> (r: Option<i64>)
    ensures
        r == single_scaled(bits, scale as nat),
{
    match single_to_parts(bits) {
        Some(f) => Some(scale_finite(&f, scale)),
        None => None,
    }
}

/// A double-precision value, given by its bits, times `scale`.
pub fn scale_double(bits: u64, scale: u32) -> (r: Option<i64>)
    ensures
        r == double_scaled(bits, scale as nat),
{
    match double_to_parts(bits) {
        Some(f) => Some(scale_finite(&f, scale)),
        None => None,
    }
}

} // verus!
