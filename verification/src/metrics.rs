//! Figures derived from the satellite list of an observation: signal
//! strength and the set of constellations in view.

use crate::nmea::{Constellation, SatelliteInfo};
use crate::text::texts;
use vstd::prelude::*;
use vstd::string::*;

verus! {

/// Signal-to-noise ratio from which a satellite counts as strong: 30 dB.
pub const STRONG_SNR: i64 = 30000;

/// The satellite reports a signal: its SNR is known and above zero.
pub open spec fn has_signal(s: SatelliteInfo) -> bool {
    s.snr.is_some() && s.snr.unwrap() > 0
}

/// The satellite's signal is strong: its SNR is known and at least 30 dB.
pub open spec fn is_strong(s: SatelliteInfo) -> bool {
    s.snr.is_some() && s.snr.unwrap() >= STRONG_SNR
}

/// Sum of the SNR of all satellites with a signal.
pub open spec fn signal_sum(sats: Seq<SatelliteInfo>) -> int
    decreases sats.len(),
{
    if sats.len() == 0 {
        0
    } else {
        signal_sum(sats.drop_last()) + if has_signal(sats.last()) {
            sats.last().snr.unwrap() as int
        } else {
            0
        }
    }
}

/// Number of satellites with a signal.
pub open spec fn signal_count(sats: Seq<SatelliteInfo>) -> int
    decreases sats.len(),
{
    if sats.len() == 0 {
        0
    } else {
        signal_count(sats.drop_last()) + if has_signal(sats.last()) {
            1int
        } else {
            0int
        }
    }
}

/// Number of strong satellites.
pub open spec fn strong_count(sats: Seq<SatelliteInfo>) -> int
    decreases sats.len(),
{
    if sats.len() == 0 {
        0
    } else {
        strong_count(sats.drop_last()) + if is_strong(sats.last()) {
            1int
        } else {
            0int
        }
    }
}

/// Mean SNR over the satellites with a signal, rounded down to a thousandth
/// of a dB; none when no satellite has a signal.
pub open spec fn mean_signal(sats: Seq<SatelliteInfo>) -> Option<i64> {
    if signal_count(sats) == 0 {
        None
    } else {
        Some((signal_sum(sats) / signal_count(sats)) as i64)
    }
}

/// Mean SNR over the satellites with a signal, zero when there is none.
pub open spec fn average_snr(sats: Seq<SatelliteInfo>) -> i64 {
    match mean_signal(sats) {
        Some(mean) => mean,
        None => 0,
    }
}

/// The counts and the sum stay within the bounds that the list length gives.
pub proof fn lemma_signal_bounds(sats: Seq<SatelliteInfo>)
    ensures
        0 <= signal_count(sats) <= sats.len(),
        0 <= strong_count(sats) <= sats.len(),
        signal_count(sats) <= signal_sum(sats) <= signal_count(sats) * 0x7fff_ffff_ffff_ffff,
    decreases sats.len(),
{
    if sats.len() > 0 {
        lemma_signal_bounds(sats.drop_last());
    }
}

/// A mean lies between one thousandth and the largest SNR a satellite can
/// hold, so it fits the type of a single SNR.
pub proof fn lemma_mean_in_range(sats: Seq<SatelliteInfo>)
    requires
        signal_count(sats) > 0,
    ensures
        1 <= signal_sum(sats) / signal_count(sats) <= 0x7fff_ffff_ffff_ffff,
{
    lemma_signal_bounds(sats);
    let n = signal_count(sats);
    let total = signal_sum(sats);
    assert(1 <= total / n <= 0x7fff_ffff_ffff_ffff) by (nonlinear_arith)
        requires
            n > 0,
            n <= total <= n * 0x7fff_ffff_ffff_ffff,
    ;
}

/// Where every satellite of a list reports the same SNR above zero, all of
/// them have a signal and the mean is that SNR; all of them are strong when
/// it is at least 30 dB.
pub proof fn lemma_uniform_signal(sats: Seq<SatelliteInfo>, snr: i64)
    requires
        snr > 0,
        forall|i: int| 0 <= i < sats.len() ==> (#[trigger] sats[i]).snr == Some(snr),
    ensures
        signal_count(sats) == sats.len(),
        signal_sum(sats) == sats.len() * snr,
        sats.len() > 0 ==> average_snr(sats) == snr,
        snr >= STRONG_SNR ==> strong_count(sats) == sats.len(),
        snr < STRONG_SNR ==> strong_count(sats) == 0,
    decreases sats.len(),
{
    if sats.len() > 0 {
        assert(sats.last() == sats[sats.len() - 1]);
        lemma_uniform_signal(sats.drop_last(), snr);
        let n = sats.len() as int;
        assert((n - 1) * snr + snr == n * snr) by (nonlinear_arith);
        assert((n * snr) / n == snr) by (nonlinear_arith)
            requires
                n > 0,
        ;
    }
}

/// Two satellites of different constellations in a list make at least two
/// constellations in view.
pub proof fn lemma_two_constellations(sats: Seq<SatelliteInfo>, i: int, j: int)
    requires
        0 <= i < sats.len(),
        0 <= j < sats.len(),
        sats[i].constellation != sats[j].constellation,
    ensures
        ConstellationSet::of(sats).size() >= 2,
        ConstellationSet::of(sats).has(sats[i].constellation),
        ConstellationSet::of(sats).has(sats[j].constellation),
{
    assert(in_view(sats, sats[i].constellation));
    assert(in_view(sats, sats[j].constellation));
}

/// Signal figures of a satellite list: mean SNR of the satellites with a
/// signal (zero when there is none) and the number of strong satellites.
pub struct SignalSummary {
    pub mean: Option<i64>,
    pub strong: usize,
}

/// Computes the signal figures of `sats` in one pass.
pub fn summarize_signal(sats: &Vec<SatelliteInfo>) -> (summary: SignalSummary)
    ensures
        summary.mean == mean_signal(sats@),
        summary.strong == strong_count(sats@),
{
    let mut total: i128 = 0;
    let mut count: u64 = 0;
    let mut strong: usize = 0;
    let mut i: usize = 0;
    while i < sats.len()
        invariant
            i <= sats@.len(),
            total == signal_sum(sats@.subrange(0, i as int)),
            count == signal_count(sats@.subrange(0, i as int)),
            strong == strong_count(sats@.subrange(0, i as int)),
        decreases sats@.len() - i,
    {
        proof {
            let next = sats@.subrange(0, i + 1);
            assert(next.drop_last() =~= sats@.subrange(0, i as int));
            assert(next.last() == sats@[i as int]);
            lemma_signal_bounds(sats@.subrange(0, i as int));
            lemma_signal_bounds(next);
        }
        match sats[i].snr {
            Some(snr) => {
                if snr > 0 {
                    total = total + snr as i128;
                    count = count + 1;
                }
                if snr >= STRONG_SNR {
                    strong = strong + 1;
                }
            },
            None => {},
        }
        i += 1;
    }
    proof {
        assert(sats@.subrange(0, sats@.len() as int) =~= sats@);
    }
    if count == 0 {
        SignalSummary { mean: None, strong }
    } else {
        proof {
            lemma_signal_bounds(sats@);
            lemma_mean_in_range(sats@);
        }
        let mean: i128 = total / (count as i128);
        assert(mean == signal_sum(sats@) / signal_count(sats@));
        SignalSummary { mean: Some(mean as i64), strong }
    }
}

/// A set of constellations.
#[derive(Debug, Clone, Copy, PartialEq, Eq, Structural)]
pub struct ConstellationSet {
    pub beidou: bool,
    pub glonass: bool,
    pub gps: bool,
    pub galileo: bool,
    pub navic: bool,
    pub qzss: bool,
}

/// Some satellite of the list belongs to constellation `c`.
pub open spec fn in_view(sats: Seq<SatelliteInfo>, c: Constellation) -> bool {
    exists|i: int| 0 <= i < sats.len() && (#[trigger] sats[i]).constellation == c
}

/// `names` joined by `", "`.
pub open spec fn comma_joined(names: Seq<Seq<char>>) -> Seq<char>
    decreases names.len(),
{
    if names.len() == 0 {
        Seq::empty()
    } else if names.len() == 1 {
        names[0]
    } else {
        comma_joined(names.drop_last()) + ", "@ + names.last()
    }
}

impl ConstellationSet {
    /// Membership.
    pub open spec fn has(self, c: Constellation) -> bool {
        match c {
            Constellation::BeiDou => self.beidou,
            Constellation::Glonass => self.glonass,
            Constellation::Gps => self.gps,
            Constellation::Galileo => self.galileo,
            Constellation::NavIc => self.navic,
            Constellation::Qzss => self.qzss,
        }
    }

    /// The set without members.
    pub open spec fn none() -> ConstellationSet {
        ConstellationSet {
            beidou: false,
            glonass: false,
            gps: false,
            galileo: false,
            navic: false,
            qzss: false,
        }
    }

    /// The set with `c` added.
    pub open spec fn with(self, c: Constellation) -> ConstellationSet {
        ConstellationSet {
            beidou: self.beidou || c == Constellation::BeiDou,
            glonass: self.glonass || c == Constellation::Glonass,
            gps: self.gps || c == Constellation::Gps,
            galileo: self.galileo || c == Constellation::Galileo,
            navic: self.navic || c == Constellation::NavIc,
            qzss: self.qzss || c == Constellation::Qzss,
        }
    }

    /// Union of two sets.
    pub open spec fn joined(self, other: ConstellationSet) -> ConstellationSet {
        ConstellationSet {
            beidou: self.beidou || other.beidou,
            glonass: self.glonass || other.glonass,
            gps: self.gps || other.gps,
            galileo: self.galileo || other.galileo,
            navic: self.navic || other.navic,
            qzss: self.qzss || other.qzss,
        }
    }

    /// The constellations that the satellites of `sats` belong to.
    pub open spec fn of(sats: Seq<SatelliteInfo>) -> ConstellationSet {
        ConstellationSet {
            beidou: in_view(sats, Constellation::BeiDou),
            glonass: in_view(sats, Constellation::Glonass),
            gps: in_view(sats, Constellation::Gps),
            galileo: in_view(sats, Constellation::Galileo),
            navic: in_view(sats, Constellation::NavIc),
            qzss: in_view(sats, Constellation::Qzss),
        }
    }

    /// Number of members.
    pub open spec fn size(self) -> int {
        (if self.beidou {
            1int
        } else {
            0int
        }) + (if self.glonass {
            1int
        } else {
            0int
        }) + (if self.gps {
            1int
        } else {
            0int
        }) + (if self.galileo {
            1int
        } else {
            0int
        }) + (if self.navic {
            1int
        } else {
            0int
        }) + (if self.qzss {
            1int
        } else {
            0int
        })
    }

    /// Names of the members, sorted as text: BeiDou, GLONASS, GPS, Galileo,
    /// NavIC, QZSS.
    pub open spec fn names_of(self) -> Seq<Seq<char>> {
        (if self.beidou {
            seq![Constellation::BeiDou.name()]
        } else {
            Seq::empty()
        }) + (if self.glonass {
            seq![Constellation::Glonass.name()]
        } else {
            Seq::empty()
        }) + (if self.gps {
            seq![Constellation::Gps.name()]
        } else {
            Seq::empty()
        }) + (if self.galileo {
            seq![Constellation::Galileo.name()]
        } else {
            Seq::empty()
        }) + (if self.navic {
            seq![Constellation::NavIc.name()]
        } else {
            Seq::empty()
        }) + (if self.qzss {
            seq![Constellation::Qzss.name()]
        } else {
            Seq::empty()
        })
    }

    /// The set without members.
    pub fn new() -> (set: ConstellationSet)
        ensures
            set == ConstellationSet::none(),
    {
        ConstellationSet {
            beidou: false,
            glonass: false,
            gps: false,
            galileo: false,
            navic: false,
            qzss: false,
        }
    }

    /// Adds `c` to the set.
    pub fn insert(&mut self, c: Constellation)
        ensures
            *final(self) == old(self).with(c),
    {
        match c {
            Constellation::BeiDou => self.beidou = true,
            Constellation::Glonass => self.glonass = true,
            Constellation::Gps => self.gps = true,
            Constellation::Galileo => self.galileo = true,
            Constellation::NavIc => self.navic = true,
            Constellation::Qzss => self.qzss = true,
        }
    }

    /// Union of two sets.
    pub fn union(&self, other: &ConstellationSet) -> (set: ConstellationSet)
        ensures
            set == self.joined(*other),
    {
        ConstellationSet {
            beidou: self.beidou || other.beidou,
            glonass: self.glonass || other.glonass,
            gps: self.gps || other.gps,
            galileo: self.galileo || other.galileo,
            navic: self.navic || other.navic,
            qzss: self.qzss || other.qzss,
        }
    }

    /// Whether the set has no member.
    pub fn is_empty(&self) -> (b: bool)
        ensures
            b == (self.size() == 0),
    {
        !(self.beidou || self.glonass || self.gps || self.galileo || self.navic || self.qzss)
    }

    /// Number of members.
    pub fn len(&self) -> (n: u32)
        ensures
            n == self.size(),
            n <= 6,
    {
        let mut n: u32 = 0;
        if self.beidou {
            n += 1;
        }
        if self.glonass {
            n += 1;
        }
        if self.gps {
            n += 1;
        }
        if self.galileo {
            n += 1;
        }
        if self.navic {
            n += 1;
        }
        if self.qzss {
            n += 1;
        }
        n
    }

    /// Names of the members in sorted order.
    pub fn names(&self) -> (list: Vec<String>)
        ensures
            texts(list@) == self.names_of(),
    {
        let mut list: Vec<String> = Vec::new();
        if self.beidou {
            list.push(String::from_str(Constellation::BeiDou.as_str()));
        }
        if self.glonass {
            list.push(String::from_str(Constellation::Glonass.as_str()));
        }
        if self.gps {
            list.push(String::from_str(Constellation::Gps.as_str()));
        }
        if self.galileo {
            list.push(String::from_str(Constellation::Galileo.as_str()));
        }
        if self.navic {
            list.push(String::from_str(Constellation::NavIc.as_str()));
        }
        if self.qzss {
            list.push(String::from_str(Constellation::Qzss.as_str()));
        }
        proof {
            assert(texts(list@) =~= self.names_of());
        }
        list
    }

    /// The constellations that the satellites of `sats` belong to.
    pub fn from_satellites(sats: &Vec<SatelliteInfo>) -> (set: ConstellationSet)
        ensures
            set == ConstellationSet::of(sats@),
    {
        let mut set: ConstellationSet = ConstellationSet::new();
        let mut i: usize = 0;
        while i < sats.len()
            invariant
                i <= sats@.len(),
                set == ConstellationSet::of(sats@.subrange(0, i as int)),
            decreases sats@.len() - i,
        {
            proof {
                lemma_in_view_step(sats@, i as int);
            }
            set.insert(sats[i].constellation);
            i += 1;
        }
        proof {
            assert(sats@.subrange(0, sats@.len() as int) =~= sats@);
        }
        set
    }
}

proof fn lemma_in_view_step(sats: Seq<SatelliteInfo>, i: int)
    requires
        0 <= i < sats.len(),
    ensures
        ConstellationSet::of(sats.subrange(0, i + 1)) == ConstellationSet::of(
            sats.subrange(0, i),
        ).with(sats[i].constellation),
{
    let before = sats.subrange(0, i);
    let after = sats.subrange(0, i + 1);
    assert forall|c: Constellation| in_view(after, c) == (in_view(before, c) || sats[i].constellation
        == c) by {
        if in_view(before, c) {
            let j = choose|j: int| 0 <= j < before.len() && (#[trigger] before[j]).constellation == c;
            assert(after[j].constellation == c);
        }
        if sats[i].constellation == c {
            assert(after[i].constellation == c);
        }
        if in_view(after, c) {
            let j = choose|j: int| 0 <= j < after.len() && (#[trigger] after[j]).constellation == c;
            if j < i {
                assert(before[j].constellation == c);
            }
        }
    }
}

} // verus!
