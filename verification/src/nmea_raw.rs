//! The boundary to the NMEA field decoder: what it delivers for a sentence,
//! as plain values, and how these become part of an observation.
//!
//! The decoder works in binary floating point. Its numbers cross the
//! boundary as bit patterns and are converted to scaled integers here. Its
//! kinds of fix and its constellations cross it variant by variant, each as
//! the library's variant of the same name.

use crate::fixed::{double_scaled, scale_double, scale_single, single_scaled};
use crate::nmea::{Constellation, FixType, GpsData, Observation, SatelliteInfo};
use crate::sentence::{ascii_bytes, supported};
use crate::text::text_of;
use vstd::prelude::*;
use vstd::utf8::is_ascii_chars;

verus! {

/// Scale of latitude and longitude: units of 1e-7 degree.
pub const DEGREE_SCALE: u32 = 10_000_000;

/// Scale of every other real-valued quantity: thousandths.
pub const MILLI_SCALE: u32 = 1000;

/// Position fields of a sentence. Latitude and longitude are the bits of
/// double-precision degrees, altitude the bits of single-precision metres,
/// `kind` the kind of fix.
#[derive(Debug)]
pub struct RawFix {
    pub time: Option<String>,
    pub kind: Option<FixType>,
    pub latitude: Option<u64>,
    pub longitude: Option<u64>,
    pub altitude: Option<u32>,
    pub satellites: Option<u32>,
}

/// Mathematical value of a `RawFix`.
pub ghost struct RawFixView {
    pub time: Option<Seq<char>>,
    pub kind: Option<FixType>,
    pub latitude: Option<u64>,
    pub longitude: Option<u64>,
    pub altitude: Option<u32>,
    pub satellites: Option<u32>,
}

impl View for RawFix {
    type V = RawFixView;

    open spec fn view(&self) -> RawFixView {
        RawFixView {
            time: text_of(self.time),
            kind: self.kind,
            latitude: self.latitude,
            longitude: self.longitude,
            altitude: self.altitude,
            satellites: self.satellites,
        }
    }
}

/// Motion and precision fields of a sentence, each the bits of a
/// single-precision number: speed in knots, course in degrees, and the three
/// dilutions of precision.
#[derive(Debug, Clone, Copy, PartialEq, Eq, Structural)]
pub struct RawMotion {
    pub speed: Option<u32>,
    pub course: Option<u32>,
    pub hdop: Option<u32>,
    pub vdop: Option<u32>,
    pub pdop: Option<u32>,
}

/// One satellite of a GSV sentence; elevation, azimuth and SNR are the bits
/// of single-precision numbers.
#[derive(Debug, Clone, Copy, PartialEq, Eq, Structural)]
pub struct RawSatellite {
    pub prn: u32,
    pub elevation: Option<u32>,
    pub azimuth: Option<u32>,
    pub snr: Option<u32>,
}

/// Numbering and satellite slots of one GSV sentence: the number of
/// sentences of its group, its own number within the group, and its slots,
/// of which the unused ones are empty.
#[derive(Debug)]
pub struct RawSlots {
    pub total: u16,
    pub number: u16,
    pub satellites: Vec<Option<RawSatellite>>,
}

/// One GSV sentence: the constellation, the numbering and the satellite
/// slots.
#[derive(Debug)]
pub struct RawGroup {
    pub constellation: Constellation,
    pub total: u16,
    pub number: u16,
    pub satellites: Vec<Option<RawSatellite>>,
}

/// Mathematical value of a `RawGroup`.
pub ghost struct RawGroupView {
    pub constellation: Constellation,
    pub total: u16,
    pub number: u16,
    pub satellites: Seq<Option<RawSatellite>>,
}

impl View for RawGroup {
    type V = RawGroupView;

    open spec fn view(&self) -> RawGroupView {
        RawGroupView {
            constellation: self.constellation,
            total: self.total,
            number: self.number,
            satellites: self.satellites@,
        }
    }
}

/// Position fields of a sentence without the kind of fix.
#[derive(Debug)]
pub struct RawPosition {
    pub time: Option<String>,
    pub latitude: Option<u64>,
    pub longitude: Option<u64>,
    pub altitude: Option<u32>,
    pub satellites: Option<u32>,
}

/// The value of an optional group.
pub open spec fn group_view_of(group: Option<RawGroup>) -> Option<RawGroupView> {
    match group {
        Some(g) => Some(g@),
        None => None,
    }
}

/// Everything but satellites that a sentence carries.
pub ghost struct Decoded {
    pub fix: RawFixView,
    pub motion: RawMotion,
}

/// What `nmea::Nmea::parse` makes of a sentence when it starts from a fresh
/// decoder: the fields it stores, or the debug text of its error.
pub uninterp spec fn decoded_sentence(sentence: Seq<char>) -> Result<Decoded, Seq<char>>;

/// What `nmea::parse_str` finds in a sentence when it is a GSV sentence that
/// it accepts; none for every other sentence.
pub uninterp spec fn decoded_group(sentence: Seq<char>) -> Option<RawGroupView>;

/// The sentence may be handed to the decoder: it is ASCII and of a supported
/// kind.
pub open spec fn decodable(sentence: Seq<char>) -> bool {
    is_ascii_chars(sentence) && supported(ascii_bytes(sentence))
}

/// Runs `nmea::Nmea::parse` on a fresh decoder and hands out the position
/// fields that it stored, floating-point numbers as their bits. A rejected
/// sentence gives the debug text of the decoder's error. The fields are those
/// named by `decoded_sentence`. Only ASCII sentences of the supported kinds
/// are admitted: for these the decoder returns on every input.
#[verifier::external_body]
pub(crate) fn decode_position(sentence: &str) -> (position: Result<RawPosition, String>)
    requires
        decodable(sentence@),
    ensures
        match (position, decoded_sentence(sentence@)) {
            (Ok(p), Ok(d)) => d.fix.time == text_of(p.time) && d.fix.latitude == p.latitude
                && d.fix.longitude == p.longitude && d.fix.altitude == p.altitude
                && d.fix.satellites == p.satellites,
            (Err(e), Err(text)) => text == e@,
            _ => false,
        },
{
    let mut state = nmea::Nmea::default();
    match state.parse(sentence) {
        Ok(_) => Ok(RawPosition {
            time: state.fix_time.map(|t| t.to_string()),
            latitude: state.latitude.map(|v| v.to_bits()),
            longitude: state.longitude.map(|v| v.to_bits()),
            altitude: state.altitude.map(|v| v.to_bits()),
            satellites: state.num_of_fix_satellites,
        }),
        Err(e) => Err(format!("{:?}", e)),
    }
}

/// Runs `nmea::Nmea::parse` on a fresh decoder and hands out the kind of fix
/// that it stored, each kind of the decoder as the kind of the same name;
/// none when the decoder stored none or rejects the sentence. The kind is the
/// one named by `decoded_sentence`.
#[verifier::external_body]
pub(crate) fn decode_fix_kind(sentence: &str) -> (kind: Option<FixType>)
    requires
        decodable(sentence@),
    ensures
        kind == match decoded_sentence(sentence@) {
            Ok(d) => d.fix.kind,
            Err(_) => None,
        },
{
    let mut state = nmea::Nmea::default();
    match state.parse(sentence) {
        Ok(_) => state.fix_type.map(|f| match f {
            nmea::sentences::FixType::Invalid => FixType::Invalid,
            nmea::sentences::FixType::Gps => FixType::Gps,
            nmea::sentences::FixType::DGps => FixType::DGps,
            nmea::sentences::FixType::Pps => FixType::Pps,
            nmea::sentences::FixType::Rtk => FixType::Rtk,
            nmea::sentences::FixType::FloatRtk => FixType::FloatRtk,
            nmea::sentences::FixType::Estimated => FixType::Estimated,
            nmea::sentences::FixType::Manual => FixType::Manual,
            nmea::sentences::FixType::Simulation => FixType::Simulation,
        }),
        Err(_) => None,
    }
}

/// Runs `nmea::Nmea::parse` on a fresh decoder and hands out the motion and
/// precision fields that it stored, as the bits of the floating-point
/// numbers; none when the decoder rejects the sentence. The fields are those
/// named by `decoded_sentence`.
#[verifier::external_body]
pub(crate) fn decode_motion(sentence: &str) -> (motion: Option<RawMotion>)
    requires
        decodable(sentence@),
    ensures
        motion == match decoded_sentence(sentence@) {
            Ok(d) => Some(d.motion),
            Err(_) => None,
        },
{
    let mut state = nmea::Nmea::default();
    match state.parse(sentence) {
        Ok(_) => Some(RawMotion {
            speed: state.speed_over_ground.map(|v| v.to_bits()),
            course: state.true_course.map(|v| v.to_bits()),
            hdop: state.hdop.map(|v| v.to_bits()),
            vdop: state.vdop.map(|v| v.to_bits()),
            pdop: state.pdop.map(|v| v.to_bits()),
        }),
        Err(_) => None,
    }
}

/// Runs `nmea::parse_str` and, for a GSV sentence, hands out its numbering
/// and satellite slots, floating-point numbers as their bits. They are those
/// named by `decoded_group`.
#[verifier::external_body]
pub(crate) fn decode_slots(sentence: &str) -> (slots: Option<RawSlots>)
    requires
        decodable(sentence@),
    ensures
        match (slots, decoded_group(sentence@)) {
            (Some(s), Some(g)) => g.total == s.total && g.number == s.number && g.satellites
                == s.satellites@,
            (None, None) => true,
            _ => false,
        },
{
    match nmea::parse_str(sentence) {
        Ok(nmea::ParseResult::GSV(g)) => Some(RawSlots {
            total: g.number_of_sentences,
            number: g.sentence_num,
            satellites: g.sats_info.iter().map(|o| o.as_ref().map(|s| RawSatellite {
                prn: s.prn(),
                elevation: s.elevation().map(|v| v.to_bits()),
                azimuth: s.azimuth().map(|v| v.to_bits()),
                snr: s.snr().map(|v| v.to_bits()),
            })).collect(),
        }),
        _ => None,
    }
}

/// Runs `nmea::parse_str` and, for a GSV sentence, hands out the
/// constellation that the decoder tells by the talker, each constellation of
/// the decoder as the one of the same name. It is the one named by
/// `decoded_group`.
#[verifier::external_body]
pub(crate) fn decode_constellation(sentence: &str) -> (constellation: Option<Constellation>)
    requires
        decodable(sentence@),
    ensures
        constellation == match decoded_group(sentence@) {
            Some(g) => Some(g.constellation),
            None => None,
        },
{
    match nmea::parse_str(sentence) {
        Ok(nmea::ParseResult::GSV(g)) => Some(match g.gnss_type {
            nmea::sentences::GnssType::Beidou => Constellation::BeiDou,
            nmea::sentences::GnssType::Galileo => Constellation::Galileo,
            nmea::sentences::GnssType::Gps => Constellation::Gps,
            nmea::sentences::GnssType::Glonass => Constellation::Glonass,
            nmea::sentences::GnssType::NavIC => Constellation::NavIc,
            nmea::sentences::GnssType::Qzss => Constellation::Qzss,
        }),
        _ => None,
    }
}

/// The position fields and the kind of fix of a sentence, or the text with
/// which the decoder rejects it.
pub(crate) fn decode_fix(sentence: &str) -> (fix: Result<RawFix, String>)
    requires
        decodable(sentence@),
    ensures
        match (fix, decoded_sentence(sentence@)) {
            (Ok(f), Ok(d)) => d.fix == f@,
            (Err(e), Err(text)) => text == e@,
            _ => false,
        },
{
    match decode_position(sentence) {
        Ok(position) => Ok(
            RawFix {
                time: position.time,
                kind: decode_fix_kind(sentence),
                latitude: position.latitude,
                longitude: position.longitude,
                altitude: position.altitude,
                satellites: position.satellites,
            },
        ),
        Err(reason) => Err(reason),
    }
}

/// The GSV sentence that a sentence is, if it is one.
pub(crate) fn decode_group(sentence: &str) -> (group: Option<RawGroup>)
    requires
        decodable(sentence@),
    ensures
        group_view_of(group) == decoded_group(sentence@),
{
    match (decode_constellation(sentence), decode_slots(sentence)) {
        (Some(constellation), Some(slots)) => Some(
            RawGroup {
                constellation,
                total: slots.total,
                number: slots.number,
                satellites: slots.satellites,
            },
        ),
        _ => None,
    }
}

/// A single-precision quantity in thousandths; none when absent or not
/// finite.
pub open spec fn thousandths(bits: Option<u32>) -> Option<i64> {
    match bits {
        Some(b) => single_scaled(b, MILLI_SCALE as nat),
        None => None,
    }
}

/// A double-precision angle in units of 1e-7 degree; none when absent or not
/// finite.
pub open spec fn degrees(bits: Option<u64>) -> Option<i64> {
    match bits {
        Some(b) => double_scaled(b, DEGREE_SCALE as nat),
        None => None,
    }
}

/// The satellite record of a raw satellite of constellation `c`.
pub open spec fn satellite_of(raw: RawSatellite, c: Constellation) -> SatelliteInfo {
    SatelliteInfo {
        prn: raw.prn,
        elevation: thousandths(raw.elevation),
        azimuth: thousandths(raw.azimuth),
        snr: thousandths(raw.snr),
        constellation: c,
    }
}

/// The satellite records of the slots that are in use, in order.
pub open spec fn satellites_of(raw: Seq<Option<RawSatellite>>, c: Constellation) -> Seq<
    SatelliteInfo,
>
    decreases raw.len(),
{
    if raw.len() == 0 {
        Seq::empty()
    } else {
        match raw.last() {
            Some(r) => satellites_of(raw.drop_last(), c).push(satellite_of(r, c)),
            None => satellites_of(raw.drop_last(), c),
        }
    }
}

/// The partial observation that the decoded fields and a satellite list
/// make. The fix quality is the NMEA code of the kind of fix. The heading is
/// never known from these sentences.
pub open spec fn observation_from(
    fix: RawFixView,
    motion: RawMotion,
    satellites: Seq<SatelliteInfo>,
) -> Observation {
    Observation {
        latitude: degrees(fix.latitude),
        longitude: degrees(fix.longitude),
        speed_knots: thousandths(motion.speed),
        course: thousandths(motion.course),
        heading: None,
        altitude: thousandths(fix.altitude),
        fix_quality: match fix.kind {
            Some(kind) => Some(kind.quality_of()),
            None => None,
        },
        satellites: fix.satellites,
        hdop: thousandths(motion.hdop),
        vdop: thousandths(motion.vdop),
        pdop: thousandths(motion.pdop),
        timestamp: fix.time,
        fix_type: fix.kind,
        satellites_info: satellites,
    }
}

fn to_thousandths(bits: Option<u32>) -> (value: Option<i64>)
    ensures
        value == thousandths(bits),
{
    match bits {
        Some(b) => scale_single(b, MILLI_SCALE),
        None => None,
    }
}

fn to_degrees(bits: Option<u64>) -> (value: Option<i64>)
    ensures
        value == degrees(bits),
{
    match bits {
        Some(b) => scale_double(b, DEGREE_SCALE),
        None => None,
    }
}

/// Converts the satellites of a GSV sentence.
pub fn convert_satellites(raw: &Vec<Option<RawSatellite>>, c: Constellation) -> (list: Vec<
    SatelliteInfo,
>)
    ensures
        list@ == satellites_of(raw@, c),
{
    let mut list: Vec<SatelliteInfo> = Vec::new();
    let mut i: usize = 0;
    while i < raw.len()
        invariant
            i <= raw@.len(),
            list@ == satellites_of(raw@.subrange(0, i as int), c),
        decreases raw@.len() - i,
    {
        proof {
            let next = raw@.subrange(0, i + 1);
            assert(next.drop_last() =~= raw@.subrange(0, i as int));
            assert(next.last() == raw@[i as int]);
        }
        match raw[i] {
            Some(r) => {
                list.push(
                    SatelliteInfo {
                        prn: r.prn,
                        elevation: to_thousandths(r.elevation),
                        azimuth: to_thousandths(r.azimuth),
                        snr: to_thousandths(r.snr),
                        constellation: c,
                    },
                );
            },
            None => {},
        }
        i += 1;
    }
    proof {
        assert(raw@.subrange(0, raw@.len() as int) =~= raw@);
    }
    list
}

/// Builds the partial observation from decoded fields and a satellite list.
pub fn observe(fix: RawFix, motion: RawMotion, satellites: Vec<SatelliteInfo>) -> (data: GpsData)
    ensures
        data@ == observation_from(fix@, motion, satellites@),
{
    GpsData {
        latitude: to_degrees(fix.latitude),
        longitude: to_degrees(fix.longitude),
        speed_knots: to_thousandths(motion.speed),
        course: to_thousandths(motion.course),
        heading: None,
        altitude: to_thousandths(fix.altitude),
        fix_quality: match fix.kind {
            Some(kind) => Some(kind.quality()),
            None => None,
        },
        satellites: fix.satellites,
        hdop: to_thousandths(motion.hdop),
        vdop: to_thousandths(motion.vdop),
        pdop: to_thousandths(motion.pdop),
        timestamp: fix.time,
        fix_type: fix.kind,
        satellites_info: satellites,
    }
}

} // verus!
