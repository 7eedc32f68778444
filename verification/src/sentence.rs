//! Framing rules of NMEA 0183 sentences: the leading `$`, the optional
//! trailing `*HH` checksum and the sentence kinds that are decoded.

use vstd::prelude::*;
use vstd::slice::slice_subrange;
use vstd::string::*;
use vstd::utf8::is_ascii_chars;

verus! {

/// XOR of all bytes.
pub open spec fn xor_all(bytes: Seq<u8>) -> u8
    decreases bytes.len(),
{
    if bytes.len() == 0 {
        0u8
    } else {
        xor_all(bytes.drop_last()) ^ bytes.last()
    }
}

/// Offset of the first `*` at or after `from`; `bytes.len()` when there is
/// none.
pub open spec fn star_offset(bytes: Seq<u8>, from: int) -> int
    decreases bytes.len() - from,
{
    if from < 0 || from >= bytes.len() {
        bytes.len() as int
    } else if bytes[from] == 0x2Au8 {
        from
    } else {
        star_offset(bytes, from + 1)
    }
}

/// The first `*` at or after `from` lies at or after `from`, within the
/// sentence or at its end, and no `*` stands between the two.
pub proof fn lemma_star_offset_is_first(bytes: Seq<u8>, from: int)
    requires
        0 <= from <= bytes.len(),
    ensures
        from <= star_offset(bytes, from) <= bytes.len(),
        star_offset(bytes, from) < bytes.len() ==> bytes[star_offset(bytes, from)] == 0x2Au8,
        forall|j: int| from <= j < star_offset(bytes, from) ==> bytes[j] != 0x2Au8,
    decreases bytes.len() - from,
{
    if from < bytes.len() && bytes[from] != 0x2Au8 {
        lemma_star_offset_is_first(bytes, from + 1);
    }
}

/// Value of a hexadecimal digit, upper or lower case.
pub open spec fn hex_value(b: u8) -> Option<u8> {
    if 0x30 <= b <= 0x39 {
        Some((b - 0x30) as u8)
    } else if 0x41 <= b <= 0x46 {
        Some((b - 0x41 + 10) as u8)
    } else if 0x61 <= b <= 0x66 {
        Some((b - 0x61 + 10) as u8)
    } else {
        None
    }
}

/// The upper-case hexadecimal digit of a value below 16.
pub open spec fn hex_char(d: int) -> char {
    if d == 0 {
        '0'
    } else if d == 1 {
        '1'
    } else if d == 2 {
        '2'
    } else if d == 3 {
        '3'
    } else if d == 4 {
        '4'
    } else if d == 5 {
        '5'
    } else if d == 6 {
        '6'
    } else if d == 7 {
        '7'
    } else if d == 8 {
        '8'
    } else if d == 9 {
        '9'
    } else if d == 10 {
        'A'
    } else if d == 11 {
        'B'
    } else if d == 12 {
        'C'
    } else if d == 13 {
        'D'
    } else if d == 14 {
        'E'
    } else {
        'F'
    }
}

/// Every byte is an ASCII character.
pub open spec fn all_ascii(bytes: Seq<u8>) -> bool {
    forall|i: int| 0 <= i < bytes.len() ==> bytes[i] < 0x80
}

/// The three letters at offsets 3 to 5 are `a`, `b`, `c`.
pub open spec fn kind_is(bytes: Seq<u8>, a: u8, b: u8, c: u8) -> bool {
    bytes.len() >= 6 && bytes[3] == a && bytes[4] == b && bytes[5] == c
}

/// The sentence is of a kind that is decoded: GGA, RMC, VTG, GSA, GSV, GLL,
/// GNS or TXT, whatever the two-letter talker in front of it.
pub open spec fn supported(bytes: Seq<u8>) -> bool {
    kind_is(bytes, 0x47, 0x47, 0x41) || kind_is(bytes, 0x52, 0x4D, 0x43) || kind_is(
        bytes,
        0x56,
        0x54,
        0x47,
    ) || kind_is(bytes, 0x47, 0x53, 0x41) || kind_is(bytes, 0x47, 0x53, 0x56) || kind_is(
        bytes,
        0x47,
        0x4C,
        0x4C,
    ) || kind_is(bytes, 0x47, 0x4E, 0x53) || kind_is(bytes, 0x54, 0x58, 0x54)
}

/// Why a sentence is turned away before it is decoded.
#[derive(Debug, Clone, Copy, PartialEq, Eq, Structural)]
pub enum SentenceFault {
    /// A byte of the sentence is not an ASCII character.
    NotAscii,
    /// The sentence does not begin with `$`.
    NoDollar,
    /// A `*` is not followed by exactly two hexadecimal digits that end the
    /// sentence.
    MalformedChecksum,
    /// The checksum that the sentence carries is not the XOR of the bytes
    /// between `$` and `*`.
    ChecksumMismatch,
    /// The sentence is of a kind that is not decoded.
    Unsupported,
}

/// The checksum that a sentence must carry: the XOR of everything between
/// `$` and `*`, or up to the end when there is no `*`.
pub open spec fn expected_checksum(bytes: Seq<u8>) -> u8 {
    xor_all(bytes.subrange(1, star_offset(bytes, 0)))
}

/// The fault of a sentence, none when it is well framed. A sentence without
/// `*` carries no checksum and passes; one with `*` must end in two
/// hexadecimal digits that give the right checksum.
pub open spec fn fault_of(bytes: Seq<u8>) -> Option<SentenceFault> {
    let star = star_offset(bytes, 0);
    if !all_ascii(bytes) {
        Some(SentenceFault::NotAscii)
    } else if bytes.len() == 0 || bytes[0] != 0x24u8 {
        Some(SentenceFault::NoDollar)
    } else if star < bytes.len() && (star + 3 != bytes.len() || hex_value(bytes[star + 1]).is_none()
        || hex_value(bytes[star + 2]).is_none()) {
        Some(SentenceFault::MalformedChecksum)
    } else if star < bytes.len() && 16 * hex_value(bytes[star + 1]).unwrap() + hex_value(
        bytes[star + 2],
    ).unwrap() != expected_checksum(bytes) {
        Some(SentenceFault::ChecksumMismatch)
    } else if !supported(bytes) {
        Some(SentenceFault::Unsupported)
    } else {
        None
    }
}

/// The bytes of a text of ASCII characters.
pub open spec fn ascii_bytes(text: Seq<char>) -> Seq<u8> {
    Seq::new(text.len(), |i: int| text[i] as u8)
}

/// The fault of a sentence given as text.
pub open spec fn text_fault(text: Seq<char>) -> Option<SentenceFault> {
    if !is_ascii_chars(text) {
        Some(SentenceFault::NotAscii)
    } else {
        fault_of(ascii_bytes(text))
    }
}

/// The text of a sentence with its checksum: the text itself when it holds a
/// `*`, else the text followed by `*` and the two upper-case hexadecimal
/// digits of the expected checksum.
pub open spec fn sealed(text: Seq<char>) -> Seq<char> {
    let bytes = ascii_bytes(text);
    if star_offset(bytes, 0) < bytes.len() {
        text
    } else {
        text + seq![
            '*',
            hex_char(expected_checksum(bytes) as int / 16),
            hex_char(expected_checksum(bytes) as int % 16),
        ]
    }
}

/// Message shown for a fault.
pub open spec fn fault_text(fault: SentenceFault) -> Seq<char> {
    match fault {
        SentenceFault::NotAscii => "sentence holds non-ASCII characters"@,
        SentenceFault::NoDollar => "sentence does not begin with '$'"@,
        SentenceFault::MalformedChecksum => "checksum is not two trailing hexadecimal digits"@,
        SentenceFault::ChecksumMismatch => "checksum mismatch"@,
        SentenceFault::Unsupported => "unsupported sentence kind"@,
    }
}

impl SentenceFault {
    /// Message shown for the fault.
    pub fn text(&self) -> (text: &'static str)
        ensures
            text@ == fault_text(*self),
    {
        match self {
            SentenceFault::NotAscii => "sentence holds non-ASCII characters",
            SentenceFault::NoDollar => "sentence does not begin with '$'",
            SentenceFault::MalformedChecksum => "checksum is not two trailing hexadecimal digits",
            SentenceFault::ChecksumMismatch => "checksum mismatch",
            SentenceFault::Unsupported => "unsupported sentence kind",
        }
    }
}

fn xor_of(bytes: &[u8]) -> (x: u8)
    ensures
        x == xor_all(bytes@),
{
    let mut x: u8 = 0;
    let mut i: usize = 0;
    while i < bytes.len()
        invariant
            i <= bytes@.len(),
            x == xor_all(bytes@.subrange(0, i as int)),
        decreases bytes@.len() - i,
    {
        proof {
            let next = bytes@.subrange(0, i + 1);
            assert(next.drop_last() =~= bytes@.subrange(0, i as int));
        }
        x = x ^ bytes[i];
        i += 1;
    }
    proof {
        assert(bytes@.subrange(0, bytes@.len() as int) =~= bytes@);
    }
    x
}

fn find_star(bytes: &[u8]) -> (at: usize)
    ensures
        at == star_offset(bytes@, 0),
        at <= bytes@.len(),
{
    let mut i: usize = 0;
    while i < bytes.len()
        invariant
            i <= bytes@.len(),
            star_offset(bytes@, 0) == star_offset(bytes@, i as int),
        decreases bytes@.len() - i,
    {
        if bytes[i] == 0x2A {
            return i;
        }
        i += 1;
    }
    i
}

fn is_all_ascii(bytes: &[u8]) -> (b: bool)
    ensures
        b == all_ascii(bytes@),
{
    let mut i: usize = 0;
    while i < bytes.len()
        invariant
            i <= bytes@.len(),
            forall|j: int| 0 <= j < i ==> bytes@[j] < 0x80,
        decreases bytes@.len() - i,
    {
        if bytes[i] >= 0x80 {
            return false;
        }
        i += 1;
    }
    true
}

fn hex_digit(b: u8) -> (v: Option<u8>)
    ensures
        v == hex_value(b),
        v.is_some() ==> v.unwrap() < 16,
{
    if 0x30 <= b && b <= 0x39 {
        Some(b - 0x30)
    } else if 0x41 <= b && b <= 0x46 {
        Some(b - 0x41 + 10)
    } else if 0x61 <= b && b <= 0x66 {
        Some(b - 0x61 + 10)
    } else {
        None
    }
}

fn has_kind(bytes: &[u8], a: u8, b: u8, c: u8) -> (r: bool)
    ensures
        r == kind_is(bytes@, a, b, c),
{
    bytes.len() >= 6 && bytes[3] == a && bytes[4] == b && bytes[5] == c
}

fn is_supported(bytes: &[u8]) -> (r: bool)
    ensures
        r == supported(bytes@),
{
    has_kind(bytes, 0x47, 0x47, 0x41) || has_kind(bytes, 0x52, 0x4D, 0x43) || has_kind(
        bytes,
        0x56,
        0x54,
        0x47,
    ) || has_kind(bytes, 0x47, 0x53, 0x41) || has_kind(bytes, 0x47, 0x53, 0x56) || has_kind(
        bytes,
        0x47,
        0x4C,
        0x4C,
    ) || has_kind(bytes, 0x47, 0x4E, 0x53) || has_kind(bytes, 0x54, 0x58, 0x54)
}

/// Checks the framing of a sentence given as bytes.
pub fn check_framing(bytes: &[u8]) -> (fault: Option<SentenceFault>)
    ensures
        fault == fault_of(bytes@),
{
    if !is_all_ascii(bytes) {
        return Some(SentenceFault::NotAscii);
    }
    if bytes.len() == 0 || bytes[0] != 0x24 {
        return Some(SentenceFault::NoDollar);
    }
    let star: usize = find_star(bytes);
    if star < bytes.len() {
        if bytes.len() - star != 3 {
            return Some(SentenceFault::MalformedChecksum);
        }
        let high: Option<u8> = hex_digit(bytes[star + 1]);
        let low: Option<u8> = hex_digit(bytes[star + 2]);
        match (high, low) {
            (Some(h), Some(l)) => {
                proof {
                    lemma_star_offset_is_first(bytes@, 1);
                }
                let want: u8 = xor_of(slice_subrange(bytes, 1, star));
                if 16 * h + l != want {
                    return Some(SentenceFault::ChecksumMismatch);
                }
            },
            _ => {
                return Some(SentenceFault::MalformedChecksum);
            },
        }
    }
    if !is_supported(bytes) {
        return Some(SentenceFault::Unsupported);
    }
    None
}

fn hex_str(d: u8) -> (text: &'static str)
    requires
        d < 16,
    ensures
        text@ == seq![hex_char(d as int)],
{
    proof {
        reveal_strlit("0");
        reveal_strlit("1");
        reveal_strlit("2");
        reveal_strlit("3");
        reveal_strlit("4");
        reveal_strlit("5");
        reveal_strlit("6");
        reveal_strlit("7");
        reveal_strlit("8");
        reveal_strlit("9");
        reveal_strlit("A");
        reveal_strlit("B");
        reveal_strlit("C");
        reveal_strlit("D");
        reveal_strlit("E");
        reveal_strlit("F");
    }
    let text: &'static str = if d == 0 {
        "0"
    } else if d == 1 {
        "1"
    } else if d == 2 {
        "2"
    } else if d == 3 {
        "3"
    } else if d == 4 {
        "4"
    } else if d == 5 {
        "5"
    } else if d == 6 {
        "6"
    } else if d == 7 {
        "7"
    } else if d == 8 {
        "8"
    } else if d == 9 {
        "9"
    } else if d == 10 {
        "A"
    } else if d == 11 {
        "B"
    } else if d == 12 {
        "C"
    } else if d == 13 {
        "D"
    } else if d == 14 {
        "E"
    } else {
        "F"
    };
    proof {
        assert(text@ =~= seq![hex_char(d as int)]);
    }
    text
}

/// Checks the framing of a sentence given as text.
pub fn check_sentence(sentence: &str) -> (fault: Option<SentenceFault>)
    ensures
        fault == text_fault(sentence@),
{
    if !sentence.is_ascii() {
        return Some(SentenceFault::NotAscii);
    }
    proof {
        is_ascii_spec_bytes(sentence);
        assert(sentence.spec_bytes() =~= ascii_bytes(sentence@));
    }
    check_framing(sentence.as_bytes())
}

/// The sentence with its checksum: a copy when it carries one, else the
/// sentence with the checksum appended. A sentence that is empty or holds
/// other than ASCII characters is no sentence and comes back as it is.
pub fn seal(sentence: &str) -> (text: String)
    ensures
        text@ == if is_ascii_chars(sentence@) && sentence@.len() >= 1 {
            sealed(sentence@)
        } else {
            sentence@
        },
{
    let mut text: String = String::from_str(sentence);
    if !sentence.is_ascii() {
        return text;
    }
    proof {
        is_ascii_spec_bytes(sentence);
        assert(sentence.spec_bytes() =~= ascii_bytes(sentence@));
    }
    let bytes: &[u8] = sentence.as_bytes();
    if bytes.len() == 0 {
        return text;
    }
    let star: usize = find_star(bytes);
    if star >= bytes.len() {
        let sum: u8 = xor_of(slice_subrange(bytes, 1, star));
        proof {
            reveal_strlit("*");
        }
        text.append("*");
        text.append(hex_str(sum / 16));
        text.append(hex_str(sum % 16));
        proof {
            assert(text@ =~= sealed(sentence@));
        }
    }
    text
}

/// A well-framed sentence stays well framed, ASCII and of a supported kind
/// when its checksum is added.
pub proof fn lemma_sealed_is_well_framed(text: Seq<char>)
    requires
        text_fault(text).is_none(),
    ensures
        is_ascii_chars(sealed(text)),
        supported(ascii_bytes(sealed(text))),
        sealed(text).len() >= text.len() >= 6,
{
    let bytes = ascii_bytes(text);
    let out = sealed(text);
    if star_offset(bytes, 0) >= bytes.len() {
        let tail = seq![
            '*',
            hex_char(expected_checksum(bytes) as int / 16),
            hex_char(expected_checksum(bytes) as int % 16),
        ];
        assert(is_ascii_chars(tail));
        assert forall|i: int| 0 <= i < out.len() implies '\0' <= #[trigger] out[i] <= '\u{7f}' by {
            if i < text.len() {
                assert(out[i] == text[i]);
            } else {
                assert(out[i] == tail[i - text.len()]);
            }
        }
        assert(ascii_bytes(out)[3] == bytes[3]);
        assert(ascii_bytes(out)[4] == bytes[4]);
        assert(ascii_bytes(out)[5] == bytes[5]);
    }
}

} // verus!
