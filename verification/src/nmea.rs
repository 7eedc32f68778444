//! The observation record that NMEA sentences are decoded into, and the rule
//! by which partial observations are merged into a cumulative one.
//!
//! Real-valued quantities are integers in thousandths of their unit (knots,
//! degrees, metres, dB, dimensionless DOP); latitude and longitude are in
//! units of 1e-7 degree, north and east positive.

use crate::nmea_raw::{
    convert_satellites, decode_fix, decode_group, decode_motion, decoded_group,
    decoded_sentence, observation_from, observe, satellites_of, RawFix, RawGroup, RawGroupView,
    RawMotion,
};
use crate::sentence::{
    check_sentence, fault_text, lemma_sealed_is_well_framed, seal, sealed, text_fault,
};
use crate::text::{clone_text, lines_of, slices, split_lines, text_of, trim, trimmed};
use vstd::prelude::*;
use vstd::string::*;

verus! {

/// Why a sentence or a source was not usable.
#[derive(Debug)]
pub enum NmeaError {
    Parse(String),
    SerialPort(String),
    NoFix,
}

impl NmeaError {
    /// The text of the error as it is shown to the user.
    pub open spec fn message(self) -> Seq<char> {
        match self {
            NmeaError::Parse(detail) => "Parse error: "@ + detail@,
            NmeaError::SerialPort(detail) => "Serial port error: "@ + detail@,
            NmeaError::NoFix => "No GPS fix"@,
        }
    }

    /// Renders the error for display.
    pub fn to_string(&self) -> (text: String)
        ensures
            text@ == self.message(),
    {
        match self {
            NmeaError::Parse(detail) => String::from_str("Parse error: ").concat(detail.as_str()),
            NmeaError::SerialPort(detail) => String::from_str("Serial port error: ").concat(
                detail.as_str(),
            ),
            NmeaError::NoFix => String::from_str("No GPS fix"),
        }
    }
}

/// A satellite navigation system.
#[derive(Debug, Clone, Copy, PartialEq, Eq, Structural)]
pub enum Constellation {
    Gps,
    Glonass,
    Galileo,
    BeiDou,
    Qzss,
    NavIc,
}

impl Constellation {
    /// Conventional name of the system.
    pub open spec fn name(self) -> Seq<char> {
        match self {
            Constellation::Gps => "GPS"@,
            Constellation::Glonass => "GLONASS"@,
            Constellation::Galileo => "Galileo"@,
            Constellation::BeiDou => "BeiDou"@,
            Constellation::Qzss => "QZSS"@,
            Constellation::NavIc => "NavIC"@,
        }
    }

    /// Conventional name of the system.
    pub fn as_str(&self) -> (name: &'static str)
        ensures
            name@ == self.name(),
    {
        match self {
            Constellation::Gps => "GPS",
            Constellation::Glonass => "GLONASS",
            Constellation::Galileo => "Galileo",
            Constellation::BeiDou => "BeiDou",
            Constellation::Qzss => "QZSS",
            Constellation::NavIc => "NavIC",
        }
    }
}

/// Kind of position fix, in the order of the NMEA quality codes 0 to 8.
#[derive(Debug, Clone, Copy, PartialEq, Eq, Structural)]
pub enum FixType {
    Invalid,
    Gps,
    DGps,
    Pps,
    Rtk,
    FloatRtk,
    Estimated,
    Manual,
    Simulation,
}

impl FixType {
    /// The NMEA quality code of the fix kind.
    pub open spec fn quality_of(self) -> u8 {
        match self {
            FixType::Invalid => 0,
            FixType::Gps => 1,
            FixType::DGps => 2,
            FixType::Pps => 3,
            FixType::Rtk => 4,
            FixType::FloatRtk => 5,
            FixType::Estimated => 6,
            FixType::Manual => 7,
            FixType::Simulation => 8,
        }
    }

    /// The NMEA quality code of the fix kind.
    pub fn quality(&self) -> (code: u8)
        ensures
            code == self.quality_of(),
    {
        match self {
            FixType::Invalid => 0,
            FixType::Gps => 1,
            FixType::DGps => 2,
            FixType::Pps => 3,
            FixType::Rtk => 4,
            FixType::FloatRtk => 5,
            FixType::Estimated => 6,
            FixType::Manual => 7,
            FixType::Simulation => 8,
        }
    }

    /// Display text of the fix kind.
    pub open spec fn label_of(self) -> Seq<char> {
        match self {
            FixType::Invalid => "No Fix"@,
            FixType::Gps => "GPS"@,
            FixType::DGps => "DGPS"@,
            FixType::Pps => "PPS"@,
            FixType::Rtk => "RTK"@,
            FixType::FloatRtk => "Float RTK"@,
            FixType::Estimated => "Estimated"@,
            FixType::Manual => "Manual"@,
            FixType::Simulation => "Simulation"@,
        }
    }

    /// Display text of the fix kind.
    pub fn label(&self) -> (text: &'static str)
        ensures
            text@ == self.label_of(),
    {
        match self {
            FixType::Invalid => "No Fix",
            FixType::Gps => "GPS",
            FixType::DGps => "DGPS",
            FixType::Pps => "PPS",
            FixType::Rtk => "RTK",
            FixType::FloatRtk => "Float RTK",
            FixType::Estimated => "Estimated",
            FixType::Manual => "Manual",
            FixType::Simulation => "Simulation",
        }
    }
}

/// One satellite in view. Elevation, azimuth and signal-to-noise ratio are in
/// thousandths of a degree and of a dB.
#[derive(Debug, Clone, Copy, PartialEq, Eq, Structural)]
pub struct SatelliteInfo {
    pub prn: u32,
    pub elevation: Option<i64>,
    pub azimuth: Option<i64>,
    pub snr: Option<i64>,
    pub constellation: Constellation,
}

/// The GNSS state known so far, or the part of it that one sentence carried.
#[derive(Debug)]
pub struct GpsData {
    pub latitude: Option<i64>,
    pub longitude: Option<i64>,
    pub speed_knots: Option<i64>,
    pub course: Option<i64>,
    pub heading: Option<i64>,
    pub altitude: Option<i64>,
    pub fix_quality: Option<u8>,
    pub satellites: Option<u32>,
    pub hdop: Option<i64>,
    pub vdop: Option<i64>,
    pub pdop: Option<i64>,
    pub timestamp: Option<String>,
    pub fix_type: Option<FixType>,
    pub satellites_info: Vec<SatelliteInfo>,
}

/// Mathematical value of a `GpsData`.
pub ghost struct Observation {
    pub latitude: Option<i64>,
    pub longitude: Option<i64>,
    pub speed_knots: Option<i64>,
    pub course: Option<i64>,
    pub heading: Option<i64>,
    pub altitude: Option<i64>,
    pub fix_quality: Option<u8>,
    pub satellites: Option<u32>,
    pub hdop: Option<i64>,
    pub vdop: Option<i64>,
    pub pdop: Option<i64>,
    pub timestamp: Option<Seq<char>>,
    pub fix_type: Option<FixType>,
    pub satellites_info: Seq<SatelliteInfo>,
}

impl View for GpsData {
    type V = Observation;

    open spec fn view(&self) -> Observation {
        Observation {
            latitude: self.latitude,
            longitude: self.longitude,
            speed_knots: self.speed_knots,
            course: self.course,
            heading: self.heading,
            altitude: self.altitude,
            fix_quality: self.fix_quality,
            satellites: self.satellites,
            hdop: self.hdop,
            vdop: self.vdop,
            pdop: self.pdop,
            timestamp: text_of(self.timestamp),
            fix_type: self.fix_type,
            satellites_info: self.satellites_info@,
        }
    }
}

/// The newer value where there is one, the earlier one otherwise.
pub open spec fn adopt<T>(earlier: Option<T>, newer: Option<T>) -> Option<T> {
    if newer.is_some() {
        newer
    } else {
        earlier
    }
}

impl Observation {
    /// The observation in which nothing is known.
    pub open spec fn empty() -> Observation {
        Observation {
            latitude: None,
            longitude: None,
            speed_knots: None,
            course: None,
            heading: None,
            altitude: None,
            fix_quality: None,
            satellites: None,
            hdop: None,
            vdop: None,
            pdop: None,
            timestamp: None,
            fix_type: None,
            satellites_info: Seq::empty(),
        }
    }

    /// Merge rule: every optional field adopts the partial's value where the
    /// partial has one; the satellite list is replaced as a whole when the
    /// partial's list is not empty.
    pub open spec fn merged(self, partial: Observation) -> Observation {
        Observation {
            latitude: adopt(self.latitude, partial.latitude),
            longitude: adopt(self.longitude, partial.longitude),
            speed_knots: adopt(self.speed_knots, partial.speed_knots),
            course: adopt(self.course, partial.course),
            heading: adopt(self.heading, partial.heading),
            altitude: adopt(self.altitude, partial.altitude),
            fix_quality: adopt(self.fix_quality, partial.fix_quality),
            satellites: adopt(self.satellites, partial.satellites),
            hdop: adopt(self.hdop, partial.hdop),
            vdop: adopt(self.vdop, partial.vdop),
            pdop: adopt(self.pdop, partial.pdop),
            timestamp: adopt(self.timestamp, partial.timestamp),
            fix_type: adopt(self.fix_type, partial.fix_type),
            satellites_info: if partial.satellites_info.len() > 0 {
                partial.satellites_info
            } else {
                self.satellites_info
            },
        }
    }

    /// The result of merging the partials `0..n` of `partials` into `self`,
    /// one after the other.
    pub open spec fn merged_all(self, partials: Seq<Observation>, n: int) -> Observation
        decreases n,
    {
        if n <= 0 {
            self
        } else {
            self.merged_all(partials, n - 1).merged(partials[n - 1])
        }
    }
}

/// Merging the same partial a second time changes nothing.
pub proof fn lemma_merge_idempotent(cumulative: Observation, partial: Observation)
    ensures
        cumulative.merged(partial).merged(partial) == cumulative.merged(partial),
{
}

/// Merging the empty observation changes nothing, and merging into the empty
/// observation gives the partial.
pub proof fn lemma_merge_empty(o: Observation)
    ensures
        o.merged(Observation::empty()) == o,
        Observation::empty().merged(o) == o,
{
    assert(Observation::empty().merged(o).satellites_info =~= o.satellites_info);
}

/// Merging is associative: a later partial overrides an earlier one field by
/// field, whichever of the two merges is done first.
pub proof fn lemma_merge_associative(a: Observation, b: Observation, c: Observation)
    ensures
        a.merged(b).merged(c) == a.merged(b.merged(c)),
{
}

/// A copy of a satellite list.
pub fn clone_satellites(list: &Vec<SatelliteInfo>) -> (copy: Vec<SatelliteInfo>)
    ensures
        copy@ == list@,
{
    let mut copy: Vec<SatelliteInfo> = Vec::new();
    let mut i: usize = 0;
    while i < list.len()
        invariant
            i <= list@.len(),
            copy@ == list@.subrange(0, i as int),
        decreases list@.len() - i,
    {
        copy.push(list[i]);
        proof {
            assert(copy@ =~= list@.subrange(0, i + 1));
        }
        i += 1;
    }
    proof {
        assert(list@.subrange(0, list@.len() as int) =~= list@);
    }
    copy
}

impl GpsData {
    /// The observation in which nothing is known.
    pub fn new() -> (data: GpsData)
        ensures
            data@ == Observation::empty(),
    {
        GpsData {
            latitude: None,
            longitude: None,
            speed_knots: None,
            course: None,
            heading: None,
            altitude: None,
            fix_quality: None,
            satellites: None,
            hdop: None,
            vdop: None,
            pdop: None,
            timestamp: None,
            fix_type: None,
            satellites_info: Vec::new(),
        }
    }

    /// A copy of the observation.
    pub fn duplicate(&self) -> (copy: GpsData)
        ensures
            copy@ == self@,
    {
        GpsData {
            latitude: self.latitude,
            longitude: self.longitude,
            speed_knots: self.speed_knots,
            course: self.course,
            heading: self.heading,
            altitude: self.altitude,
            fix_quality: self.fix_quality,
            satellites: self.satellites,
            hdop: self.hdop,
            vdop: self.vdop,
            pdop: self.pdop,
            timestamp: clone_text(&self.timestamp),
            fix_type: self.fix_type,
            satellites_info: clone_satellites(&self.satellites_info),
        }
    }

    /// Merges a partial observation into this cumulative one.
    pub fn merge(&mut self, partial: &GpsData)
        ensures
            final(self)@ == old(self)@.merged(partial@),
    {
        if partial.latitude.is_some() {
            self.latitude = partial.latitude;
        }
        if partial.longitude.is_some() {
            self.longitude = partial.longitude;
        }
        if partial.speed_knots.is_some() {
            self.speed_knots = partial.speed_knots;
        }
        if partial.course.is_some() {
            self.course = partial.course;
        }
        if partial.heading.is_some() {
            self.heading = partial.heading;
        }
        if partial.altitude.is_some() {
            self.altitude = partial.altitude;
        }
        if partial.fix_quality.is_some() {
            self.fix_quality = partial.fix_quality;
        }
        if partial.satellites.is_some() {
            self.satellites = partial.satellites;
        }
        if partial.hdop.is_some() {
            self.hdop = partial.hdop;
        }
        if partial.vdop.is_some() {
            self.vdop = partial.vdop;
        }
        if partial.pdop.is_some() {
            self.pdop = partial.pdop;
        }
        if partial.timestamp.is_some() {
            self.timestamp = clone_text(&partial.timestamp);
        }
        if partial.fix_type.is_some() {
            self.fix_type = partial.fix_type;
        }
        if partial.satellites_info.len() > 0 {
            self.satellites_info = clone_satellites(&partial.satellites_info);
        }
    }
}

impl Default for GpsData {
    fn default() -> (data: GpsData)
        ensures
            data@ == Observation::empty(),
    {
        GpsData::new()
    }
}

impl Clone for GpsData {
    fn clone(&self) -> (copy: GpsData)
        ensures
            copy@ == self@,
    {
        self.duplicate()
    }
}

/// Largest number of satellites that one group of GSV sentences can hold;
/// what a group reports beyond it is ignored.
pub const GROUP_CAPACITY: usize = 64;

/// `list` cut off at the group capacity.
pub open spec fn capped(list: Seq<SatelliteInfo>) -> Seq<SatelliteInfo> {
    if list.len() > GROUP_CAPACITY {
        list.subrange(0, GROUP_CAPACITY as int)
    } else {
        list
    }
}

/// Re-assembly state of one constellation: the satellites of the group that
/// is coming in, the number of the sentence that must come next (zero when no
/// group is coming in), and the satellites of the last complete group.
#[derive(Debug)]
pub struct GroupState {
    pub building: Vec<SatelliteInfo>,
    pub next: u16,
    pub complete: Vec<SatelliteInfo>,
}

/// Mathematical value of a `GroupState`.
pub ghost struct GroupView {
    pub building: Seq<SatelliteInfo>,
    pub next: u16,
    pub complete: Seq<SatelliteInfo>,
}

impl View for GroupState {
    type V = GroupView;

    open spec fn view(&self) -> GroupView {
        GroupView { building: self.building@, next: self.next, complete: self.complete@ }
    }
}

impl GroupView {
    /// The state in which nothing was received.
    pub open spec fn fresh() -> GroupView {
        GroupView { building: Seq::empty(), next: 0, complete: Seq::empty() }
    }

    /// Sentence `number` of `total` is acceptable now: it is the first of a
    /// group or the one that the group coming in waits for.
    pub open spec fn in_order(self, total: u16, number: u16) -> bool {
        number <= total && (number == 1 || (self.next != 0 && number == self.next))
    }

    /// The state after sentence `number` of `total` with satellites `sats`.
    /// The first sentence starts a group, each following one must come in
    /// order, and the last one completes the group, which then replaces the
    /// complete one. A sentence out of order discards the group coming in.
    pub open spec fn advanced(self, total: u16, number: u16, sats: Seq<SatelliteInfo>) -> GroupView {
        if !self.in_order(total, number) {
            GroupView { building: Seq::empty(), next: 0, complete: self.complete }
        } else {
            let before = if number == 1 {
                Seq::empty()
            } else {
                self.building
            };
            let joined = capped(before + sats);
            if number == total {
                GroupView { building: Seq::empty(), next: 0, complete: joined }
            } else {
                GroupView { building: joined, next: (number + 1) as u16, complete: self.complete }
            }
        }
    }
}

impl GroupState {
    /// The state in which nothing was received.
    pub fn new() -> (state: GroupState)
        ensures
            state@ == GroupView::fresh(),
    {
        GroupState { building: Vec::new(), next: 0, complete: Vec::new() }
    }

    /// Takes sentence `number` of `total` with satellites `sats`.
    pub fn advance(&mut self, total: u16, number: u16, sats: &Vec<SatelliteInfo>)
        ensures
            final(self)@ == old(self)@.advanced(total, number, sats@),
    {
        let in_order: bool = number <= total && (number == 1 || (self.next != 0 && number
            == self.next));
        if !in_order {
            self.building = Vec::new();
            self.next = 0;
            return;
        }
        if number == 1 {
            self.building = Vec::new();
        }
        self.building.truncate(GROUP_CAPACITY);
        let ghost before = if number == 1 {
            Seq::<SatelliteInfo>::empty()
        } else {
            old(self).building@
        };
        proof {
            assert(self.building@ =~= capped(before + sats@.subrange(0, 0)));
        }
        let mut i: usize = 0;
        while i < sats.len() && self.building.len() < GROUP_CAPACITY
            invariant
                i <= sats@.len(),
                self.building@ == capped(before + sats@.subrange(0, i as int)),
                self.next == old(self).next,
                self.complete == old(self).complete,
            decreases sats@.len() - i,
        {
            self.building.push(sats[i]);
            proof {
                assert(self.building@ =~= capped(before + sats@.subrange(0, i + 1)));
            }
            i += 1;
        }
        proof {
            assert(self.building@ =~= capped(before + sats@));
        }
        if number == total {
            let mut done: Vec<SatelliteInfo> = Vec::new();
            core::mem::swap(&mut done, &mut self.building);
            self.complete = done;
            self.next = 0;
        } else {
            self.next = number + 1;
        }
    }
}

/// Decoder for NMEA sentences. It keeps, per constellation, what is needed
/// to re-assemble the satellites in view from groups of GSV sentences.
///
/// The fields of a sentence come from the `nmea` crate, which is run afresh
/// on every sentence. Its own decoder can also gather satellites over many
/// sentences, but it aborts the process when a stream reports more packs or
/// satellites than it has room for, and what a receiver sends cannot be
/// bounded beforehand. So the groups are put together here, under a rule
/// that holds for every stream: the satellites in view are the last complete
/// group of each constellation, in the order in which they were reported, up
/// to `GROUP_CAPACITY` per group.
#[derive(Debug)]
pub struct NmeaParser {
    pub beidou: GroupState,
    pub glonass: GroupState,
    pub gps: GroupState,
    pub galileo: GroupState,
    pub navic: GroupState,
    pub qzss: GroupState,
}

/// Mathematical value of an `NmeaParser`.
pub ghost struct ParserView {
    pub beidou: GroupView,
    pub glonass: GroupView,
    pub gps: GroupView,
    pub galileo: GroupView,
    pub navic: GroupView,
    pub qzss: GroupView,
}

impl View for NmeaParser {
    type V = ParserView;

    open spec fn view(&self) -> ParserView {
        ParserView {
            beidou: self.beidou@,
            glonass: self.glonass@,
            gps: self.gps@,
            galileo: self.galileo@,
            navic: self.navic@,
            qzss: self.qzss@,
        }
    }
}

impl ParserView {
    /// The state of a new decoder.
    pub open spec fn fresh() -> ParserView {
        ParserView {
            beidou: GroupView::fresh(),
            glonass: GroupView::fresh(),
            gps: GroupView::fresh(),
            galileo: GroupView::fresh(),
            navic: GroupView::fresh(),
            qzss: GroupView::fresh(),
        }
    }

    /// The satellites in view: the last complete group of every
    /// constellation, the constellations in the order of their names.
    pub open spec fn satellites(self) -> Seq<SatelliteInfo> {
        self.beidou.complete + self.glonass.complete + self.gps.complete + self.galileo.complete
            + self.navic.complete + self.qzss.complete
    }

    /// The state after a GSV sentence of constellation `c`.
    pub open spec fn advanced(
        self,
        c: Constellation,
        total: u16,
        number: u16,
        sats: Seq<SatelliteInfo>,
    ) -> ParserView {
        match c {
            Constellation::BeiDou => ParserView {
                beidou: self.beidou.advanced(total, number, sats),
                ..self
            },
            Constellation::Glonass => ParserView {
                glonass: self.glonass.advanced(total, number, sats),
                ..self
            },
            Constellation::Gps => ParserView {
                gps: self.gps.advanced(total, number, sats),
                ..self
            },
            Constellation::Galileo => ParserView {
                galileo: self.galileo.advanced(total, number, sats),
                ..self
            },
            Constellation::NavIc => ParserView {
                navic: self.navic.advanced(total, number, sats),
                ..self
            },
            Constellation::Qzss => ParserView {
                qzss: self.qzss.advanced(total, number, sats),
                ..self
            },
        }
    }

    /// The state after a decoded GSV sentence.
    pub open spec fn fed(self, group: RawGroupView) -> ParserView {
        self.advanced(
            group.constellation,
            group.total,
            group.number,
            satellites_of(group.satellites, group.constellation),
        )
    }

    /// What decoding the sentence `text` yields in state `self`: the partial
    /// observation or the text of the error, and the state afterwards.
    ///
    /// A sentence with a framing fault is turned away with the text of the
    /// fault. A well-framed one is decoded with its checksum in place; what
    /// the decoder rejects comes back with the decoder's text. The partial
    /// holds the fields of this sentence alone, and after a GSV sentence the
    /// satellites in view.
    pub open spec fn parsed(self, text: Seq<char>) -> (Result<Observation, Seq<char>>, ParserView) {
        match text_fault(text) {
            Some(fault) => (Err(fault_text(fault)), self),
            None => match decoded_sentence(sealed(text)) {
                Err(reason) => (Err(reason), self),
                Ok(fields) => match decoded_group(sealed(text)) {
                    Some(group) => (
                        Ok(
                            observation_from(
                                fields.fix,
                                fields.motion,
                                self.fed(group).satellites(),
                            ),
                        ),
                        self.fed(group),
                    ),
                    None => (
                        Ok(observation_from(fields.fix, fields.motion, Seq::empty())),
                        self,
                    ),
                },
            },
        }
    }

    /// What decoding the first `n` lines of `lines` yields, one after the
    /// other: the merge of all partials, and the state afterwards. Each line
    /// is trimmed; empty and rejected lines add nothing.
    pub open spec fn batch(self, lines: Seq<Seq<char>>, n: int) -> (Observation, ParserView)
        decreases n,
    {
        if n <= 0 {
            (Observation::empty(), self)
        } else {
            let (merged, state) = self.batch(lines, n - 1);
            let line = trimmed(lines[n - 1]);
            if line.len() == 0 {
                (merged, state)
            } else {
                match state.parsed(line).0 {
                    Ok(partial) => (merged.merged(partial), state.parsed(line).1),
                    Err(_) => (merged, state.parsed(line).1),
                }
            }
        }
    }
}

/// A sentence that is turned away or rejected leaves the decoder as it was.
pub proof fn lemma_rejected_sentence_changes_nothing(state: ParserView, text: Seq<char>)
    requires
        state.parsed(text).0.is_err(),
    ensures
        state.parsed(text).1 == state,
{
}

/// A sentence with a checksum that does not match, or that does not begin
/// with `$`, is rejected, whatever the decoder would make of it.
pub proof fn lemma_framing_faults_are_rejected(state: ParserView, text: Seq<char>)
    requires
        text_fault(text).is_some(),
    ensures
        state.parsed(text).0 == Err::<Observation, Seq<char>>(fault_text(text_fault(text).unwrap())),
{
}

impl NmeaParser {
    /// A decoder that has seen nothing.
    pub fn new() -> (parser: NmeaParser)
        ensures
            parser@ == ParserView::fresh(),
    {
        NmeaParser {
            beidou: GroupState::new(),
            glonass: GroupState::new(),
            gps: GroupState::new(),
            galileo: GroupState::new(),
            navic: GroupState::new(),
            qzss: GroupState::new(),
        }
    }

    /// Forgets everything seen so far.
    pub fn reset(&mut self)
        ensures
            final(self)@ == ParserView::fresh(),
    {
        *self = NmeaParser::new();
    }

    /// The satellites in view.
    pub fn satellites(&self) -> (list: Vec<SatelliteInfo>)
        ensures
            list@ == self@.satellites(),
    {
        let mut list: Vec<SatelliteInfo> = clone_satellites(&self.beidou.complete);
        let mut part: Vec<SatelliteInfo> = clone_satellites(&self.glonass.complete);
        list.append(&mut part);
        part = clone_satellites(&self.gps.complete);
        list.append(&mut part);
        part = clone_satellites(&self.galileo.complete);
        list.append(&mut part);
        part = clone_satellites(&self.navic.complete);
        list.append(&mut part);
        part = clone_satellites(&self.qzss.complete);
        list.append(&mut part);
        list
    }

    /// Takes one decoded GSV sentence and returns the satellites in view.
    pub fn assemble(&mut self, group: &RawGroup) -> (list: Vec<SatelliteInfo>)
        ensures
            final(self)@ == old(self)@.fed(group@),
            list@ == final(self)@.satellites(),
    {
        let c: Constellation = group.constellation;
        let sats: Vec<SatelliteInfo> = convert_satellites(&group.satellites, c);
        match c {
            Constellation::BeiDou => self.beidou.advance(group.total, group.number, &sats),
            Constellation::Glonass => self.glonass.advance(group.total, group.number, &sats),
            Constellation::Gps => self.gps.advance(group.total, group.number, &sats),
            Constellation::Galileo => self.galileo.advance(group.total, group.number, &sats),
            Constellation::NavIc => self.navic.advance(group.total, group.number, &sats),
            Constellation::Qzss => self.qzss.advance(group.total, group.number, &sats),
        }
        self.satellites()
    }

    /// Decodes one sentence into a partial observation.
    pub fn parse_sentence(&mut self, sentence: &str) -> (r: Result<GpsData, NmeaError>)
        ensures
            final(self)@ == old(self)@.parsed(sentence@).1,
            match r {
                Ok(data) => old(self)@.parsed(sentence@).0 == Ok::<Observation, Seq<char>>(data@),
                Err(NmeaError::Parse(reason)) => old(self)@.parsed(sentence@).0 == Err::<
                    Observation,
                    Seq<char>,
                >(reason@),
                Err(_) => false,
            },
    {
        match check_sentence(sentence) {
            Some(fault) => {
                return Err(NmeaError::Parse(String::from_str(fault.text())));
            },
            None => {},
        }
        proof {
            lemma_sealed_is_well_framed(sentence@);
        }
        let text: String = seal(sentence);
        let fix: RawFix = match decode_fix(text.as_str()) {
            Ok(f) => f,
            Err(reason) => {
                return Err(NmeaError::Parse(reason));
            },
        };
        let motion: RawMotion = match decode_motion(text.as_str()) {
            Some(m) => m,
            None => RawMotion { speed: None, course: None, hdop: None, vdop: None, pdop: None },
        };
        let satellites: Vec<SatelliteInfo> = match decode_group(text.as_str()) {
            Some(group) => self.assemble(&group),
            None => Vec::new(),
        };
        Ok(observe(fix, motion, satellites))
    }

    /// Decodes every line of `data` and merges the partials.
    pub fn parse_batch(&mut self, data: &str) -> (latest: GpsData)
        ensures
            (latest@, final(self)@) == old(self)@.batch(
                lines_of(data@),
                lines_of(data@).len() as int,
            ),
    {
        let lines: Vec<&str> = split_lines(data);
        let mut latest: GpsData = GpsData::new();
        let mut i: usize = 0;
        while i < lines.len()
            invariant
                i <= lines@.len(),
                slices(lines@) == lines_of(data@),
                (latest@, self@) == old(self)@.batch(lines_of(data@), i as int),
            decreases lines@.len() - i,
        {
            let line: &str = trim(lines[i]);
            proof {
                assert(slices(lines@)[i as int] == lines@[i as int]@);
            }
            if line.unicode_len() > 0 {
                match self.parse_sentence(line) {
                    Ok(partial) => latest.merge(&partial),
                    Err(_) => {},
                }
            }
            i += 1;
        }
        latest
    }
}

} // verus!
