//! Serial ports and the connection to a receiver: which ports look like a
//! GNSS receiver, how a port is probed and in which order ports are tried,
//! and the state that the reader of an open port maintains.
//!
//! Nothing here touches a port. The caller enumerates, opens, reads and
//! writes, and reports what happened; the decisions are made here.

use crate::nmea::{GpsData, NmeaParser, Observation, ParserView};
use crate::text::{
    clone_text, contains, has_infix, has_prefix, lowercase, lowercase_text, starts_with, text_of,
    texts, trim, trimmed,
};
use crate::ubx_config::{
    build_cfg_gnss_series8_marine, build_cfg_msg, build_cfg_nmea_extended, cfg_msg_payload, frames,
    gnss_series8_payload, nmea_extended_payload, ubx_frame, NMEA_GSV, UBX_CFG_GNSS, UBX_CFG_MSG,
    UBX_CFG_NMEA, UBX_CLASS_CFG,
};
use vstd::prelude::*;
use vstd::string::*;
use vstd::utf8::encode_utf8;

verus! {

/// USB vendor id of u-blox.
pub const UBLOX_VENDOR_ID: u16 = 0x1546;

/// Capacity of the buffer of raw sentences.
pub const NMEA_BUFFER_SIZE: usize = 100;

/// Lines read at most when a port is probed.
pub const PROBE_MAX_LINES: u32 = 10;

/// Matching lines that make a probed port a GNSS receiver.
pub const PROBE_THRESHOLD: u32 = 2;

/// Read timeout of one probe attempt, in milliseconds.
pub const PROBE_TIMEOUT_MS: u64 = 3000;

/// Read timeout of an open port, in milliseconds.
pub const READ_TIMEOUT_MS: u64 = 1000;

/// Pause after each bring-up command, in milliseconds.
pub const BRING_UP_PAUSE_MS: u64 = 250;

/// Read timeout while the replies to the bring-up are drained, in
/// milliseconds.
pub const DRAIN_TIMEOUT_MS: u64 = 100;

/// Largest number of reply bytes drained by one read after the bring-up.
pub const DRAIN_CHUNK: usize = 512;

/// Least pause between two injected commands, in milliseconds.
pub const COMMAND_PAUSE_MS: u64 = 100;

/// Why a port operation failed.
#[derive(Debug)]
pub enum GpsError {
    SerialPort(String),
    Io(String),
    NoGpsDetected,
}

impl GpsError {
    /// The text of the error as it is shown to the user.
    pub open spec fn message(self) -> Seq<char> {
        match self {
            GpsError::SerialPort(detail) => "Serial port error: "@ + detail@,
            GpsError::Io(detail) => "IO error: "@ + detail@,
            GpsError::NoGpsDetected => "No GPS device detected"@,
        }
    }

    /// Renders the error for display.
    pub fn to_string(&self) -> (text: String)
        ensures
            text@ == self.message(),
    {
        match self {
            GpsError::SerialPort(detail) => String::from_str("Serial port error: ").concat(
                detail.as_str(),
            ),
            GpsError::Io(detail) => String::from_str("IO error: ").concat(detail.as_str()),
            GpsError::NoGpsDetected => String::from_str("No GPS device detected"),
        }
    }
}

/// Physical kind of a port, with what a USB port reports of itself.
#[derive(Debug)]
pub enum PortKind {
    Usb {
        vid: u16,
        manufacturer: Option<String>,
        product: Option<String>,
        serial_number: Option<String>,
    },
    Bluetooth,
    Pci,
    Unknown,
}

/// A port as the system lists it.
#[derive(Debug)]
pub struct PortInfo {
    pub port_name: String,
    pub kind: PortKind,
}

/// A listed port with the verdict of the keyword heuristic.
#[derive(Debug)]
pub struct DetectedPort {
    pub port_name: String,
    pub port_type: String,
    pub manufacturer: Option<String>,
    pub product: Option<String>,
    pub serial_number: Option<String>,
    pub is_likely_gps: bool,
}

/// Mathematical value of a `DetectedPort`.
pub ghost struct PortView {
    pub port_name: Seq<char>,
    pub port_type: Seq<char>,
    pub manufacturer: Option<Seq<char>>,
    pub product: Option<Seq<char>>,
    pub serial_number: Option<Seq<char>>,
    pub is_likely_gps: bool,
}

impl View for DetectedPort {
    type V = PortView;

    open spec fn view(&self) -> PortView {
        PortView {
            port_name: self.port_name@,
            port_type: self.port_type@,
            manufacturer: text_of(self.manufacturer),
            product: text_of(self.product),
            serial_number: text_of(self.serial_number),
            is_likely_gps: self.is_likely_gps,
        }
    }
}

impl Clone for DetectedPort {
    fn clone(&self) -> (copy: DetectedPort)
        ensures
            copy@ == self@,
    {
        DetectedPort {
            port_name: self.port_name.clone(),
            port_type: self.port_type.clone(),
            manufacturer: clone_text(&self.manufacturer),
            product: clone_text(&self.product),
            serial_number: clone_text(&self.serial_number),
            is_likely_gps: self.is_likely_gps,
        }
    }
}

/// The lower-cased bytes hold one of the keywords by which a GNSS receiver
/// is recognised.
pub open spec fn names_gnss(lowered: Seq<u8>) -> bool {
    contains(lowered, "gps".spec_bytes()) || contains(lowered, "gnss".spec_bytes()) || contains(
        lowered,
        "u-blox".spec_bytes(),
    ) || contains(lowered, "ublox".spec_bytes()) || contains(lowered, "sirf".spec_bytes())
        || contains(lowered, "nmea".spec_bytes()) || contains(lowered, "garmin".spec_bytes())
        || contains(lowered, "globalsat".spec_bytes()) || contains(lowered, "bu-353".spec_bytes())
        || contains(lowered, "vk-162".spec_bytes()) || contains(lowered, "g-mouse".spec_bytes())
        || contains(lowered, "receiver".spec_bytes()) || contains(
        lowered,
        "navigation".spec_bytes(),
    )
}

/// The lower-cased bytes name u-blox.
pub open spec fn names_ublox(lowered: Seq<u8>) -> bool {
    contains(lowered, "u-blox".spec_bytes()) || contains(lowered, "ublox".spec_bytes())
}

/// The UTF-8 bytes of the lower-case form of a text.
pub open spec fn lowered_bytes(text: Seq<char>) -> Seq<u8> {
    encode_utf8(lowercase_text(text))
}

/// A description hints at a GNSS receiver: it is present and, in lower case,
/// holds one of the keywords.
pub open spec fn hints_at_gnss(text: Option<Seq<char>>) -> bool {
    match text {
        Some(t) => names_gnss(lowered_bytes(t)),
        None => false,
    }
}

/// A description hints at u-blox.
pub open spec fn hints_at_ublox(text: Option<Seq<char>>) -> bool {
    match text {
        Some(t) => names_ublox(lowered_bytes(t)),
        None => false,
    }
}

fn mentions_gnss(text: &Option<String>) -> (b: bool)
    ensures
        b == hints_at_gnss(text_of(*text)),
{
    match text {
        Some(t) => {
            let lower: String = lowercase(t.as_str());
            let bytes: &[u8] = lower.as_str().as_bytes();
            has_infix(bytes, "gps".as_bytes()) || has_infix(bytes, "gnss".as_bytes()) || has_infix(
                bytes,
                "u-blox".as_bytes(),
            ) || has_infix(bytes, "ublox".as_bytes()) || has_infix(bytes, "sirf".as_bytes())
                || has_infix(bytes, "nmea".as_bytes()) || has_infix(bytes, "garmin".as_bytes())
                || has_infix(bytes, "globalsat".as_bytes()) || has_infix(
                bytes,
                "bu-353".as_bytes(),
            ) || has_infix(bytes, "vk-162".as_bytes()) || has_infix(bytes, "g-mouse".as_bytes())
                || has_infix(bytes, "receiver".as_bytes()) || has_infix(
                bytes,
                "navigation".as_bytes(),
            )
        },
        None => false,
    }
}

fn mentions_ublox(text: &Option<String>) -> (b: bool)
    ensures
        b == hints_at_ublox(text_of(*text)),
{
    match text {
        Some(t) => {
            let lower: String = lowercase(t.as_str());
            let bytes: &[u8] = lower.as_str().as_bytes();
            has_infix(bytes, "u-blox".as_bytes()) || has_infix(bytes, "ublox".as_bytes())
        },
        None => false,
    }
}

/// Whether manufacturer or product of a USB device hint at a GNSS receiver.
pub fn is_likely_gps_device(manufacturer: &Option<String>, product: &Option<String>) -> (b: bool)
    ensures
        b == (hints_at_gnss(text_of(*manufacturer)) || hints_at_gnss(text_of(*product))),
{
    mentions_gnss(manufacturer) || mentions_gnss(product)
}

/// What is shown of a listed port. Only a USB port reports manufacturer,
/// product and serial number, so only a USB port can be a likely receiver.
pub open spec fn described(info: PortInfo) -> PortView {
    match info.kind {
        PortKind::Usb { vid, manufacturer, product, serial_number } => PortView {
            port_name: info.port_name@,
            port_type: "USB"@,
            manufacturer: text_of(manufacturer),
            product: text_of(product),
            serial_number: text_of(serial_number),
            is_likely_gps: hints_at_gnss(text_of(manufacturer)) || hints_at_gnss(
                text_of(product),
            ),
        },
        PortKind::Bluetooth => PortView {
            port_name: info.port_name@,
            port_type: "Bluetooth"@,
            manufacturer: None,
            product: None,
            serial_number: None,
            is_likely_gps: false,
        },
        PortKind::Pci => PortView {
            port_name: info.port_name@,
            port_type: "PCI"@,
            manufacturer: None,
            product: None,
            serial_number: None,
            is_likely_gps: false,
        },
        PortKind::Unknown => PortView {
            port_name: info.port_name@,
            port_type: "Unknown"@,
            manufacturer: None,
            product: None,
            serial_number: None,
            is_likely_gps: false,
        },
    }
}

/// Describes one listed port.
pub fn describe_port(info: &PortInfo) -> (port: DetectedPort)
    ensures
        port@ == described(*info),
{
    match &info.kind {
        PortKind::Usb { vid, manufacturer, product, serial_number } => DetectedPort {
            port_name: info.port_name.clone(),
            port_type: String::from_str("USB"),
            manufacturer: clone_text(manufacturer),
            product: clone_text(product),
            serial_number: clone_text(serial_number),
            is_likely_gps: is_likely_gps_device(manufacturer, product),
        },
        PortKind::Bluetooth => DetectedPort {
            port_name: info.port_name.clone(),
            port_type: String::from_str("Bluetooth"),
            manufacturer: None,
            product: None,
            serial_number: None,
            is_likely_gps: false,
        },
        PortKind::Pci => DetectedPort {
            port_name: info.port_name.clone(),
            port_type: String::from_str("PCI"),
            manufacturer: None,
            product: None,
            serial_number: None,
            is_likely_gps: false,
        },
        PortKind::Unknown => DetectedPort {
            port_name: info.port_name.clone(),
            port_type: String::from_str("Unknown"),
            manufacturer: None,
            product: None,
            serial_number: None,
            is_likely_gps: false,
        },
    }
}

/// The values of a list of described ports.
pub open spec fn port_views(ports: Seq<DetectedPort>) -> Seq<PortView> {
    ports.map_values(|p: DetectedPort| p@)
}

/// The port is a u-blox receiver: a USB device with the vendor id of u-blox
/// or with u-blox in its manufacturer or product text.
pub open spec fn is_ublox(info: PortInfo) -> bool {
    match info.kind {
        PortKind::Usb { vid, manufacturer, product, serial_number } => vid == UBLOX_VENDOR_ID
            || hints_at_ublox(text_of(manufacturer)) || hints_at_ublox(text_of(product)),
        _ => false,
    }
}

/// Whether a listed port is a u-blox receiver.
pub fn is_ublox_port(info: &PortInfo) -> (b: bool)
    ensures
        b == is_ublox(*info),
{
    match &info.kind {
        PortKind::Usb { vid, manufacturer, product, serial_number } => *vid == UBLOX_VENDOR_ID
            || mentions_ublox(manufacturer) || mentions_ublox(product),
        _ => false,
    }
}

/// Whether the port named `port_name` is listed as a u-blox receiver, so that
/// UBX commands may be sent to it.
pub fn is_ublox_device(infos: &Vec<PortInfo>, port_name: &str) -> (b: bool)
    ensures
        b == exists|i: int|
            0 <= i < infos@.len() && (#[trigger] infos@[i]).port_name@ == port_name@ && is_ublox(
                infos@[i],
            ),
{
    let mut i: usize = 0;
    while i < infos.len()
        invariant
            i <= infos@.len(),
            forall|j: int|
                0 <= j < i ==> !((#[trigger] infos@[j]).port_name@ == port_name@ && is_ublox(
                    infos@[j],
                )),
        decreases infos@.len() - i,
    {
        if same_text(infos[i].port_name.as_str(), port_name) && is_ublox_port(&infos[i]) {
            return true;
        }
        i += 1;
    }
    false
}

/// Whether two texts are equal.
pub fn same_text(a: &str, b: &str) -> (same: bool)
    ensures
        same == (a@ == b@),
{
    let left: String = String::from_str(a);
    let right: String = String::from_str(b);
    left == right
}

/// The commands sent to a u-blox receiver right after its port was opened:
/// constellations of series 8, extended talker ids, GSV output.
pub open spec fn bring_up_frames() -> Seq<Seq<u8>> {
    seq![
        ubx_frame(UBX_CLASS_CFG, UBX_CFG_GNSS, gnss_series8_payload()),
        ubx_frame(UBX_CLASS_CFG, UBX_CFG_NMEA, nmea_extended_payload()),
        ubx_frame(UBX_CLASS_CFG, UBX_CFG_MSG, cfg_msg_payload(NMEA_GSV, 1)),
    ]
}

/// The bring-up commands in the order in which they are written.
pub fn bring_up_commands() -> (commands: Vec<Vec<u8>>)
    ensures
        frames(commands@) == bring_up_frames(),
{
    let mut commands: Vec<Vec<u8>> = Vec::new();
    commands.push(build_cfg_gnss_series8_marine());
    commands.push(build_cfg_nmea_extended());
    commands.push(build_cfg_msg(NMEA_GSV, 1));
    proof {
        assert(frames(commands@) =~= bring_up_frames());
    }
    commands
}

/// The trimmed line begins with `$`: it is taken for an NMEA sentence.
pub open spec fn is_sentence(line: Seq<char>) -> bool {
    starts_with(encode_utf8(trimmed(line)), "$".spec_bytes())
}

/// The trimmed line begins with `$` and holds one of the talker ids `GP`,
/// `GN` and `GL`: it counts when a port is probed.
pub open spec fn is_gnss_sentence(line: Seq<char>) -> bool {
    let bytes = encode_utf8(trimmed(line));
    starts_with(bytes, "$".spec_bytes()) && (contains(bytes, "GP".spec_bytes()) || contains(
        bytes,
        "GN".spec_bytes(),
    ) || contains(bytes, "GL".spec_bytes()))
}

/// Whether a line read from a port counts for the probe.
pub fn counts_for_probe(line: &str) -> (b: bool)
    ensures
        b == is_gnss_sentence(line@),
{
    let bytes: &[u8] = trim(line).as_bytes();
    has_prefix(bytes, "$".as_bytes()) && (has_infix(bytes, "GP".as_bytes()) || has_infix(
        bytes,
        "GN".as_bytes(),
    ) || has_infix(bytes, "GL".as_bytes()))
}

/// What to do after a line was read from a probed port.
#[derive(Debug, Clone, Copy, PartialEq, Eq, Structural)]
pub enum ProbeStep {
    /// Read another line.
    ReadMore,
    /// The port is a GNSS receiver.
    Detected,
    /// The window is used up; the port is not a GNSS receiver.
    NotDetected,
}

/// Progress of probing one port: lines read and lines that counted.
#[derive(Debug, Clone, Copy, PartialEq, Eq, Structural)]
pub struct PortProbe {
    pub lines_read: u32,
    pub matches: u32,
}

impl PortProbe {
    /// The probe is decided: enough lines counted, or the window is used up.
    pub open spec fn decided(self) -> bool {
        self.matches >= PROBE_THRESHOLD || self.lines_read >= PROBE_MAX_LINES
    }

    /// The port is a GNSS receiver by what was read so far.
    pub open spec fn detected(self) -> bool {
        self.matches >= PROBE_THRESHOLD
    }

    /// The probe after one more line, which counts when `hit`. A decided
    /// probe takes no more lines.
    pub open spec fn fed(self, hit: bool) -> PortProbe {
        if self.decided() {
            self
        } else {
            PortProbe {
                lines_read: (self.lines_read + 1) as u32,
                matches: if hit {
                    (self.matches + 1) as u32
                } else {
                    self.matches
                },
            }
        }
    }

    /// What the reader does next.
    pub open spec fn step(self) -> ProbeStep {
        if self.detected() {
            ProbeStep::Detected
        } else if self.lines_read >= PROBE_MAX_LINES {
            ProbeStep::NotDetected
        } else {
            ProbeStep::ReadMore
        }
    }

    /// The probe after the lines `0..n` of `hits` were read in order.
    pub open spec fn fed_all(self, hits: Seq<bool>, n: int) -> PortProbe
        decreases n,
    {
        if n <= 0 {
            self
        } else {
            self.fed_all(hits, n - 1).fed(hits[n - 1])
        }
    }

    /// A probe that has read nothing.
    pub fn new() -> (probe: PortProbe)
        ensures
            probe == (PortProbe { lines_read: 0, matches: 0 }),
    {
        PortProbe { lines_read: 0, matches: 0 }
    }

    /// Takes one line read from the port and says what to do next.
    pub fn on_line(&mut self, line: &str) -> (step: ProbeStep)
        ensures
            *final(self) == old(self).fed(is_gnss_sentence(line@)),
            step == final(self).step(),
    {
        if !(self.matches >= PROBE_THRESHOLD || self.lines_read >= PROBE_MAX_LINES) {
            self.lines_read = self.lines_read + 1;
            if counts_for_probe(line) {
                self.matches = self.matches + 1;
            }
        }
        if self.matches >= PROBE_THRESHOLD {
            ProbeStep::Detected
        } else if self.lines_read >= PROBE_MAX_LINES {
            ProbeStep::NotDetected
        } else {
            ProbeStep::ReadMore
        }
    }

    /// The outcome when reading ended, by the window, by a timeout or by the
    /// end of the stream: whether the port is a GNSS receiver.
    pub fn finish(&self) -> (found: bool)
        ensures
            found == self.detected(),
    {
        self.matches >= PROBE_THRESHOLD
    }
}

/// Number of lines among the first `n` of `hits` that counted.
pub open spec fn hits_among(hits: Seq<bool>, n: int) -> int
    decreases n,
{
    if n <= 0 {
        0
    } else {
        hits_among(hits, n - 1) + if hits[n - 1] {
            1int
        } else {
            0int
        }
    }
}

/// A fresh probe that takes lines as long as it is undecided has read at
/// most ten lines and has counted exactly the matching ones among them, of
/// which there are at most two: the second match decides.
pub proof fn lemma_probe_counts_matches(hits: Seq<bool>, n: int)
    requires
        0 <= n <= hits.len(),
        n == 0 || !(PortProbe { lines_read: 0, matches: 0 }).fed_all(hits, n - 1).decided(),
    ensures
        (PortProbe { lines_read: 0, matches: 0 }).fed_all(hits, n).lines_read == n,
        (PortProbe { lines_read: 0, matches: 0 }).fed_all(hits, n).matches == hits_among(hits, n),
        n <= PROBE_MAX_LINES,
        hits_among(hits, n) <= PROBE_THRESHOLD,
    decreases n,
{
    let fresh = PortProbe { lines_read: 0, matches: 0 };
    if n > 0 {
        if n > 1 {
            let before = fresh.fed_all(hits, n - 2);
            assert(fresh.fed_all(hits, n - 1) == before.fed(hits[n - 2]));
            assert(!before.decided());
        }
        lemma_probe_counts_matches(hits, n - 1);
    }
}

/// The baud rates that are tried on every port, in this order.
pub open spec fn baud_rates() -> Seq<u32> {
    seq![4800u32, 9600u32, 115200u32]
}

/// One probe attempt: the port by its index in the list, and the baud rate.
#[derive(Debug, Clone, Copy, PartialEq, Eq, Structural)]
pub struct ProbeAttempt {
    pub port: usize,
    pub baud: u32,
}

/// The indices below `n` of the ports whose likely flag equals `likely`, in
/// ascending order.
pub open spec fn ports_with(ports: Seq<PortView>, likely: bool, n: int) -> Seq<int>
    decreases n,
{
    if n <= 0 {
        Seq::empty()
    } else if ports[n - 1].is_likely_gps == likely {
        ports_with(ports, likely, n - 1).push(n - 1)
    } else {
        ports_with(ports, likely, n - 1)
    }
}

/// The order in which ports are tried: the likely receivers first, then the
/// others, each class in the order of the list.
pub open spec fn port_order(ports: Seq<PortView>) -> Seq<int> {
    ports_with(ports, true, ports.len() as int) + ports_with(ports, false, ports.len() as int)
}

/// The attempts of auto-detection: every port in `port_order`, each at every
/// baud rate in turn.
pub open spec fn attempts_for(order: Seq<int>) -> Seq<ProbeAttempt> {
    Seq::new(
        order.len() * 3,
        |k: int| ProbeAttempt { port: order[k / 3] as usize, baud: baud_rates()[k % 3] },
    )
}

fn indices_with(ports: &Vec<DetectedPort>, likely: bool) -> (list: Vec<usize>)
    ensures
        list@.map_values(|i: usize| i as int) == ports_with(
            port_views(ports@),
            likely,
            ports@.len() as int,
        ),
        forall|k: int| 0 <= k < list@.len() ==> list@[k] < ports@.len(),
{
    let mut list: Vec<usize> = Vec::new();
    let mut i: usize = 0;
    while i < ports.len()
        invariant
            i <= ports@.len(),
            list@.map_values(|i: usize| i as int) == ports_with(
                port_views(ports@),
                likely,
                i as int,
            ),
            forall|k: int| 0 <= k < list@.len() ==> list@[k] < ports@.len(),
        decreases ports@.len() - i,
    {
        if ports[i].is_likely_gps == likely {
            list.push(i);
            proof {
                assert(list@.map_values(|i: usize| i as int) =~= ports_with(
                    port_views(ports@),
                    likely,
                    i as int,
                ).push(i as int));
            }
        }
        i += 1;
    }
    list
}

/// Plans auto-detection over the listed ports.
pub fn detection_plan(ports: &Vec<DetectedPort>) -> (plan: Vec<ProbeAttempt>)
    ensures
        plan@ == attempts_for(port_order(port_views(ports@))),
        forall|k: int| 0 <= k < plan@.len() ==> plan@[k].port < ports@.len(),
{
    let mut order: Vec<usize> = indices_with(ports, true);
    let mut others: Vec<usize> = indices_with(ports, false);
    order.append(&mut others);
    proof {
        assert(order@.map_values(|i: usize| i as int) =~= port_order(port_views(ports@)));
    }
    let ghost wanted = attempts_for(port_order(port_views(ports@)));
    let mut plan: Vec<ProbeAttempt> = Vec::new();
    let mut k: usize = 0;
    while k < order.len()
        invariant
            k <= order@.len(),
            order@.map_values(|i: usize| i as int) == port_order(port_views(ports@)),
            wanted == attempts_for(port_order(port_views(ports@))),
            plan@.len() == 3 * k,
            forall|j: int| 0 <= j < plan@.len() ==> plan@[j] == wanted[j],
            forall|j: int| 0 <= j < order@.len() ==> order@[j] < ports@.len(),
            forall|j: int| 0 <= j < plan@.len() ==> plan@[j].port < ports@.len(),
        decreases order@.len() - k,
    {
        let port: usize = order[k];
        proof {
            assert(order@.map_values(|i: usize| i as int)[k as int] == port as int);
            assert(wanted[3 * k] == ProbeAttempt { port, baud: 4800 });
            assert(wanted[3 * k + 1] == ProbeAttempt { port, baud: 9600 });
            assert(wanted[3 * k + 2] == ProbeAttempt { port, baud: 115200 });
        }
        plan.push(ProbeAttempt { port, baud: 4800 });
        plan.push(ProbeAttempt { port, baud: 9600 });
        plan.push(ProbeAttempt { port, baud: 115200 });
        k += 1;
    }
    proof {
        assert(plan@ =~= wanted);
    }
    plan
}

/// Whether each line of a list counts for the probe.
pub open spec fn line_hits(lines: Seq<Seq<char>>) -> Seq<bool> {
    lines.map_values(|l: Seq<char>| is_gnss_sentence(l))
}

/// Index of the first attempt at or after `from` that found a receiver;
/// `answers.len()` when there is none.
pub open spec fn first_found(answers: Seq<bool>, from: int) -> int
    decreases answers.len() - from,
{
    if from < 0 || from >= answers.len() {
        answers.len() as int
    } else if answers[from] {
        from
    } else {
        first_found(answers, from + 1)
    }
}

/// The attempt that detects the receiver when the attempts of the plan are
/// made in order with the given answers: the first that found one.
pub open spec fn detected_attempt(ports: Seq<PortView>, answers: Seq<bool>) -> Option<
    ProbeAttempt,
> {
    let at = first_found(answers, 0);
    let plan = attempts_for(port_order(ports));
    if at < answers.len() && at < plan.len() {
        Some(plan[at])
    } else {
        None
    }
}

/// The first attempt that found a receiver lies at or after `from`.
pub proof fn lemma_first_found_bounds(answers: Seq<bool>, from: int)
    requires
        0 <= from <= answers.len(),
    ensures
        from <= first_found(answers, from) <= answers.len(),
    decreases answers.len() - from,
{
    if from < answers.len() && !answers[from] {
        lemma_first_found_bounds(answers, from + 1);
    }
}

/// Every port is tried: the order holds as many ports as the list, so the
/// plan holds three attempts for each.
pub proof fn lemma_plan_covers_every_port(ports: Seq<PortView>)
    ensures
        port_order(ports).len() == ports.len(),
        attempts_for(port_order(ports)).len() == 3 * ports.len(),
{
    lemma_ports_are_split(ports, ports.len() as int);
}

/// Up to any index, the likely ports and the others together are all ports.
pub proof fn lemma_ports_are_split(ports: Seq<PortView>, n: int)
    requires
        0 <= n <= ports.len(),
    ensures
        ports_with(ports, true, n).len() + ports_with(ports, false, n).len() == n,
    decreases n,
{
    if n > 0 {
        lemma_ports_are_split(ports, n - 1);
    }
}

/// State of the connection to a receiver.
#[derive(Debug, Clone, Copy, PartialEq, Eq, Structural)]
pub enum GpsConnectionStatus {
    Disconnected,
    Connecting,
    Connected,
    ReceivingData,
    Error,
}

/// What is known of the connection.
#[derive(Debug)]
pub struct GpsSourceStatus {
    pub port_name: Option<String>,
    pub status: GpsConnectionStatus,
    pub last_error: Option<String>,
    pub sentences_received: u64,
    pub last_fix_time: Option<String>,
}

/// Mathematical value of a `GpsSourceStatus`.
pub ghost struct SourceView {
    pub port_name: Option<Seq<char>>,
    pub status: GpsConnectionStatus,
    pub last_error: Option<Seq<char>>,
    pub sentences_received: u64,
    pub last_fix_time: Option<Seq<char>>,
}

impl SourceView {
    /// A port is open: the status names it and the connection is connected
    /// or receiving.
    pub open spec fn port_open(self) -> bool {
        self.port_name.is_some() && (self.status == GpsConnectionStatus::Connected || self.status
            == GpsConnectionStatus::ReceivingData)
    }

    /// The status before any connection.
    pub open spec fn initial() -> SourceView {
        SourceView {
            port_name: None,
            status: GpsConnectionStatus::Disconnected,
            last_error: None,
            sentences_received: 0,
            last_fix_time: None,
        }
    }
}

impl View for GpsSourceStatus {
    type V = SourceView;

    open spec fn view(&self) -> SourceView {
        SourceView {
            port_name: text_of(self.port_name),
            status: self.status,
            last_error: text_of(self.last_error),
            sentences_received: self.sentences_received,
            last_fix_time: text_of(self.last_fix_time),
        }
    }
}

impl GpsSourceStatus {
    /// Whether a port is open.
    pub fn has_open_port(&self) -> (open: bool)
        ensures
            open == self@.port_open(),
    {
        self.port_name.is_some() && (self.status == GpsConnectionStatus::Connected || self.status
            == GpsConnectionStatus::ReceivingData)
    }
}

impl Default for GpsSourceStatus {
    fn default() -> (status: GpsSourceStatus)
        ensures
            status@ == SourceView::initial(),
    {
        GpsSourceStatus {
            port_name: None,
            status: GpsConnectionStatus::Disconnected,
            last_error: None,
            sentences_received: 0,
            last_fix_time: None,
        }
    }
}

impl Clone for GpsSourceStatus {
    fn clone(&self) -> (copy: GpsSourceStatus)
        ensures
            copy@ == self@,
    {
        GpsSourceStatus {
            port_name: clone_text(&self.port_name),
            status: self.status,
            last_error: clone_text(&self.last_error),
            sentences_received: self.sentences_received,
            last_fix_time: clone_text(&self.last_fix_time),
        }
    }
}

/// The buffer of raw sentences after `sentence` was added: it keeps the most
/// recent sentences, at most `NMEA_BUFFER_SIZE` of them, oldest first.
pub open spec fn ring_pushed(buffer: Seq<Seq<char>>, sentence: Seq<char>) -> Seq<Seq<char>> {
    if buffer.len() >= NMEA_BUFFER_SIZE {
        buffer.subrange(buffer.len() - NMEA_BUFFER_SIZE + 1, buffer.len() as int).push(sentence)
    } else {
        buffer.push(sentence)
    }
}

/// The buffer never holds more than its capacity; the newest sentence stands
/// last, and what stays of the older ones are the most recent, in order: the
/// oldest goes first.
pub proof fn lemma_ring_is_bounded(buffer: Seq<Seq<char>>, sentence: Seq<char>)
    ensures
        ring_pushed(buffer, sentence).len() <= NMEA_BUFFER_SIZE,
        ring_pushed(buffer, sentence).len() >= 1,
        ring_pushed(buffer, sentence).last() == sentence,
        ring_pushed(buffer, sentence) == buffer.push(sentence).subrange(
            buffer.len() + 1 - ring_pushed(buffer, sentence).len(),
            buffer.len() as int + 1,
        ),
{
    let pushed = ring_pushed(buffer, sentence);
    assert(pushed =~= buffer.push(sentence).subrange(
        buffer.len() + 1 - pushed.len(),
        buffer.len() as int + 1,
    ));
}

/// `count + 1`, held at the largest value.
pub open spec fn counted(count: u64) -> u64 {
    if count < 0xffff_ffff_ffff_ffff {
        (count + 1) as u64
    } else {
        count
    }
}

/// Everything that is shared between the reader of a port and its users:
/// the cumulative observation, the connection status, the buffer of raw
/// sentences, the decoder, and the commands waiting to be written.
#[derive(Debug)]
pub struct GpsManager {
    pub data: GpsData,
    pub status: GpsSourceStatus,
    pub nmea_buffer: Vec<String>,
    pub parser: NmeaParser,
    pub command_queue: Vec<Vec<u8>>,
}

/// Mathematical value of a `GpsManager`.
pub ghost struct ManagerView {
    pub data: Observation,
    pub status: SourceView,
    pub nmea_buffer: Seq<Seq<char>>,
    pub parser: ParserView,
    pub command_queue: Seq<Seq<u8>>,
}

impl View for GpsManager {
    type V = ManagerView;

    open spec fn view(&self) -> ManagerView {
        ManagerView {
            data: self.data@,
            status: self.status@,
            nmea_buffer: texts(self.nmea_buffer@),
            parser: self.parser@,
            command_queue: frames(self.command_queue@),
        }
    }
}

impl ManagerView {
    /// The state before any connection.
    pub open spec fn initial() -> ManagerView {
        ManagerView {
            data: Observation::empty(),
            status: SourceView::initial(),
            nmea_buffer: Seq::empty(),
            parser: ParserView::fresh(),
            command_queue: Seq::empty(),
        }
    }

    /// The state after a disconnect: the status says so, the rest stays.
    pub open spec fn disconnected(self) -> ManagerView {
        ManagerView {
            status: SourceView { status: GpsConnectionStatus::Disconnected, ..self.status },
            ..self
        }
    }

    /// The state when a connection to `port` is begun: the observation and
    /// the decoder start afresh, no command of an earlier session waits, and
    /// the status names the port, counts from zero and holds no error.
    pub open spec fn connecting(self, port: Seq<char>) -> ManagerView {
        ManagerView {
            data: Observation::empty(),
            status: SourceView {
                port_name: Some(port),
                status: GpsConnectionStatus::Connecting,
                last_error: None,
                sentences_received: 0,
                last_fix_time: self.status.last_fix_time,
            },
            nmea_buffer: self.nmea_buffer,
            parser: ParserView::fresh(),
            command_queue: Seq::empty(),
        }
    }

    /// No connection is under way: what a reader of an earlier connection
    /// still reports is ignored.
    pub open spec fn is_disconnected(self) -> bool {
        self.status.status == GpsConnectionStatus::Disconnected
    }

    /// The state when the port was opened. A disconnected manager stays as
    /// it is.
    pub open spec fn opened(self) -> ManagerView {
        if self.is_disconnected() {
            self
        } else {
            ManagerView {
                status: SourceView {
                    status: GpsConnectionStatus::Connected,
                    last_error: None,
                    ..self.status
                },
                ..self
            }
        }
    }

    /// The state after a fatal read or write error. A disconnected manager
    /// stays as it is.
    pub open spec fn failed(self, error: Seq<char>) -> ManagerView {
        if self.is_disconnected() {
            self
        } else {
            ManagerView {
                status: SourceView {
                    status: GpsConnectionStatus::Error,
                    last_error: Some(error),
                    ..self.status
                },
                ..self
            }
        }
    }

    /// The state after the reader took `line` from the port. A disconnected
    /// manager stays as it is, and a line that is no sentence changes
    /// nothing. A sentence is counted, kept in the buffer in its trimmed form
    /// and decoded; what the decoder accepts is merged into the observation.
    /// The status becomes receiving and takes over the fix time of the
    /// observation when there is one.
    pub open spec fn received(self, line: Seq<char>) -> ManagerView {
        if self.is_disconnected() || !is_sentence(line) {
            self
        } else {
            let sentence = trimmed(line);
            let outcome = self.parser.parsed(sentence);
            let data = match outcome.0 {
                Ok(partial) => self.data.merged(partial),
                Err(_) => self.data,
            };
            ManagerView {
                data,
                status: SourceView {
                    status: GpsConnectionStatus::ReceivingData,
                    sentences_received: counted(self.status.sentences_received),
                    last_fix_time: if data.timestamp.is_some() {
                        data.timestamp
                    } else {
                        self.status.last_fix_time
                    },
                    ..self.status
                },
                nmea_buffer: ring_pushed(self.nmea_buffer, sentence),
                parser: outcome.1,
                command_queue: self.command_queue,
            }
        }
    }

    /// The state after one event of a connection.
    pub open spec fn after(self, event: ConnectionEvent) -> ManagerView {
        match event {
            ConnectionEvent::Opened => self.opened(),
            ConnectionEvent::Line(line) => self.received(line),
            ConnectionEvent::Failed(error) => self.failed(error),
            ConnectionEvent::Disconnected => self.disconnected(),
        }
    }

    /// The state after the events `0..n` of `events`, in order.
    pub open spec fn after_all(self, events: Seq<ConnectionEvent>, n: int) -> ManagerView
        decreases n,
    {
        if n <= 0 {
            self
        } else {
            self.after_all(events, n - 1).after(events[n - 1])
        }
    }

    /// The state after the reader took the lines `0..n` of `lines`, in order.
    pub open spec fn received_all(self, lines: Seq<Seq<char>>, n: int) -> ManagerView
        decreases n,
    {
        if n <= 0 {
            self
        } else {
            self.received_all(lines, n - 1).received(lines[n - 1])
        }
    }
}

/// What can happen to a connection between its beginning and the next one:
/// the port is opened, the reader takes a line or fails, the user
/// disconnects.
pub ghost enum ConnectionEvent {
    Opened,
    Line(Seq<char>),
    Failed(Seq<char>),
    Disconnected,
}

/// The sentences among the lines `0..n` of `lines`, trimmed, in order.
pub open spec fn sentences_among(lines: Seq<Seq<char>>, n: int) -> Seq<Seq<char>>
    decreases n,
{
    if n <= 0 {
        Seq::empty()
    } else if is_sentence(lines[n - 1]) {
        sentences_among(lines, n - 1).push(trimmed(lines[n - 1]))
    } else {
        sentences_among(lines, n - 1)
    }
}

/// The last `NMEA_BUFFER_SIZE` entries of `list`, all of them when there are
/// fewer.
pub open spec fn most_recent(list: Seq<Seq<char>>) -> Seq<Seq<char>> {
    if list.len() > NMEA_BUFFER_SIZE {
        list.subrange(list.len() - NMEA_BUFFER_SIZE, list.len() as int)
    } else {
        list
    }
}

/// Over any run of lines that a connected reader takes, the buffer of raw
/// sentences holds the most recent of what it held and of the sentences that
/// came, in the order of arrival: it never exceeds its capacity, and the
/// oldest entry is the one that goes.
pub proof fn lemma_ring_over_a_run(m: ManagerView, lines: Seq<Seq<char>>, n: int)
    requires
        0 <= n <= lines.len(),
        !m.is_disconnected(),
        m.nmea_buffer.len() <= NMEA_BUFFER_SIZE,
    ensures
        !m.received_all(lines, n).is_disconnected(),
        m.received_all(lines, n).nmea_buffer == most_recent(
            m.nmea_buffer + sentences_among(lines, n),
        ),
        m.received_all(lines, n).nmea_buffer.len() <= NMEA_BUFFER_SIZE,
    decreases n,
{
    if n <= 0 {
        assert(m.nmea_buffer + sentences_among(lines, n) =~= m.nmea_buffer);
    } else {
        lemma_ring_over_a_run(m, lines, n - 1);
        let before = m.received_all(lines, n - 1);
        let all = m.nmea_buffer + sentences_among(lines, n - 1);
        if is_sentence(lines[n - 1]) {
            let sentence = trimmed(lines[n - 1]);
            assert(m.nmea_buffer + sentences_among(lines, n) =~= all.push(sentence));
            assert(ring_pushed(most_recent(all), sentence) =~= most_recent(all.push(sentence)));
        }
    }
}

/// Over any run of events of a connection the buffer of raw sentences stays
/// within its capacity.
pub proof fn lemma_buffer_bounded_over_a_run(m: ManagerView, events: Seq<ConnectionEvent>, n: int)
    requires
        0 <= n <= events.len(),
        m.nmea_buffer.len() <= NMEA_BUFFER_SIZE,
    ensures
        m.after_all(events, n).nmea_buffer.len() <= NMEA_BUFFER_SIZE,
    decreases n,
{
    if n > 0 {
        lemma_buffer_bounded_over_a_run(m, events, n - 1);
        let before = m.after_all(events, n - 1);
        match events[n - 1] {
            ConnectionEvent::Line(line) => {
                lemma_ring_is_bounded(before.nmea_buffer, trimmed(line));
            },
            _ => {},
        }
    }
}

/// Between two readings of the status of one connection, whatever happens in
/// between and in whatever order, the count of sentences does not go down.
pub proof fn lemma_count_over_a_run(m: ManagerView, events: Seq<ConnectionEvent>, n: int)
    requires
        0 <= n <= events.len(),
    ensures
        m.after_all(events, n).status.sentences_received >= m.status.sentences_received,
    decreases n,
{
    if n > 0 {
        lemma_count_over_a_run(m, events, n - 1);
    }
}

/// After a disconnect the manager stays disconnected, and altogether as it
/// is, until the next connection is begun: a line or an error that the
/// reader still hands in changes nothing.
pub proof fn lemma_disconnected_until_connect(
    m: ManagerView,
    events: Seq<ConnectionEvent>,
    n: int,
)
    requires
        0 <= n <= events.len(),
    ensures
        m.disconnected().after_all(events, n) == m.disconnected(),
        m.disconnected().after_all(events, n).status.status == GpsConnectionStatus::Disconnected,
        !m.disconnected().after_all(events, n).status.port_open(),
    decreases n,
{
    if n > 0 {
        lemma_disconnected_until_connect(m, events, n - 1);
    }
}

/// Whatever line the reader takes, the buffer of raw sentences holds at most
/// its capacity afterwards.
pub proof fn lemma_buffer_stays_bounded(m: ManagerView, line: Seq<char>)
    requires
        m.nmea_buffer.len() <= NMEA_BUFFER_SIZE,
    ensures
        m.received(line).nmea_buffer.len() <= NMEA_BUFFER_SIZE,
{
    lemma_ring_is_bounded(m.nmea_buffer, trimmed(line));
}

/// Within a connection the count of sentences never goes down, whatever line
/// is read, whether the port is opened and whether the connection fails.
pub proof fn lemma_sentence_count_is_monotonic(m: ManagerView, line: Seq<char>, error: Seq<char>)
    ensures
        m.received(line).status.sentences_received >= m.status.sentences_received,
        m.opened().status.sentences_received == m.status.sentences_received,
        m.failed(error).status.sentences_received == m.status.sentences_received,
        m.disconnected().status.sentences_received == m.status.sentences_received,
{
}

/// After a disconnect the status is disconnected, whatever it was, and a new
/// connection begins in connecting.
pub proof fn lemma_connection_lifecycle(m: ManagerView, port: Seq<char>, line: Seq<char>)
    ensures
        m.disconnected().status.status == GpsConnectionStatus::Disconnected,
        m.connecting(port).status.status == GpsConnectionStatus::Connecting,
        m.connecting(port).status.sentences_received == 0,
        !m.is_disconnected() ==> m.opened().status.status == GpsConnectionStatus::Connected,
        m.connecting(port).opened().status.port_open(),
        !m.is_disconnected() && is_sentence(line) ==> m.received(line).status.status
            == GpsConnectionStatus::ReceivingData,
        !m.disconnected().status.port_open(),
{
}

impl GpsManager {
    /// A manager without connection.
    pub fn new() -> (manager: GpsManager)
        ensures
            manager@ == ManagerView::initial(),
    {
        let manager = GpsManager {
            data: GpsData::new(),
            status: GpsSourceStatus::default(),
            nmea_buffer: Vec::new(),
            parser: NmeaParser::new(),
            command_queue: Vec::new(),
        };
        proof {
            assert(texts(manager.nmea_buffer@) =~= Seq::empty());
            assert(frames(manager.command_queue@) =~= Seq::empty());
        }
        manager
    }

    /// Describes every port that the system lists, in the order of the list.
    pub fn list_serial_ports(infos: &Vec<PortInfo>) -> (ports: Vec<DetectedPort>)
        ensures
            port_views(ports@) == infos@.map_values(|i: PortInfo| described(i)),
    {
        let mut ports: Vec<DetectedPort> = Vec::new();
        let mut i: usize = 0;
        while i < infos.len()
            invariant
                i <= infos@.len(),
                ports@.len() == i,
                forall|j: int| 0 <= j < i ==> (#[trigger] ports@[j])@ == described(infos@[j]),
            decreases infos@.len() - i,
        {
            ports.push(describe_port(&infos[i]));
            i += 1;
        }
        proof {
            assert(port_views(ports@) =~= infos@.map_values(|i: PortInfo| described(i)));
        }
        ports
    }

    /// The outcome of probing a port from which `lines` were read, in this
    /// order, before reading ended: whether two of the first ten lines
    /// counted.
    pub fn test_port(lines: &Vec<String>) -> (found: bool)
        ensures
            found == (PortProbe { lines_read: 0, matches: 0 }).fed_all(
                line_hits(texts(lines@)),
                lines@.len() as int,
            ).detected(),
    {
        let ghost hits = line_hits(texts(lines@));
        let mut probe: PortProbe = PortProbe::new();
        let mut i: usize = 0;
        while i < lines.len()
            invariant
                i <= lines@.len(),
                hits == line_hits(texts(lines@)),
                probe == (PortProbe { lines_read: 0, matches: 0 }).fed_all(hits, i as int),
            decreases lines@.len() - i,
        {
            proof {
                assert(hits[i as int] == is_gnss_sentence(lines@[i as int]@));
            }
            probe.on_line(lines[i].as_str());
            i += 1;
        }
        probe.finish()
    }

    /// The outcome of auto-detection over `ports` when the attempts of the
    /// plan were made in order and `answers` holds what each found: the port
    /// and baud rate of the first attempt that found a receiver, or the error
    /// that none was detected.
    pub fn auto_detect_gps(ports: &Vec<DetectedPort>, answers: &Vec<bool>) -> (r: Result<
        (DetectedPort, u32),
        GpsError,
    >)
        ensures
            match (r, detected_attempt(port_views(ports@), answers@)) {
                (Ok((port, baud)), Some(attempt)) => attempt.port < ports@.len() && port@
                    == ports@[attempt.port as int]@ && baud == attempt.baud,
                (Err(e), None) => e == GpsError::NoGpsDetected,
                _ => false,
            },
    {
        let plan: Vec<ProbeAttempt> = detection_plan(ports);
        let mut k: usize = 0;
        while k < answers.len() && k < plan.len()
            invariant
                k <= answers@.len(),
                k <= plan@.len(),
                first_found(answers@, 0) == first_found(answers@, k as int),
                plan@ == attempts_for(port_order(port_views(ports@))),
                forall|j: int| 0 <= j < plan@.len() ==> plan@[j].port < ports@.len(),
            decreases answers@.len() - k,
        {
            if answers[k] {
                let attempt: ProbeAttempt = plan[k];
                assert(plan@[k as int].port < ports@.len());
                return Ok((ports[attempt.port].clone(), attempt.baud));
            }
            k += 1;
        }
        proof {
            lemma_first_found_bounds(answers@, k as int);
        }
        Err(GpsError::NoGpsDetected)
    }

    /// The recent raw sentences, oldest first.
    pub fn get_nmea_buffer(&self) -> (buffer: Vec<String>)
        ensures
            texts(buffer@) == self@.nmea_buffer,
    {
        crate::text::clone_texts(&self.nmea_buffer)
    }

    /// Empties the buffer of raw sentences.
    pub fn clear_nmea_buffer(&mut self)
        ensures
            final(self)@ == (ManagerView { nmea_buffer: Seq::empty(), ..old(self)@ }),
    {
        self.nmea_buffer.clear();
        proof {
            assert(texts(self.nmea_buffer@) =~= Seq::empty());
        }
    }

    /// The cumulative observation.
    pub fn get_data(&self) -> (data: GpsData)
        ensures
            data@ == self@.data,
    {
        self.data.duplicate()
    }

    /// The connection status.
    pub fn get_status(&self) -> (status: GpsSourceStatus)
        ensures
            status@ == self@.status,
    {
        self.status.clone()
    }

    /// Begins a connection to `port_name`, ending any earlier one.
    pub fn connect(&mut self, port_name: &str)
        ensures
            final(self)@ == old(self)@.disconnected().connecting(port_name@),
    {
        self.disconnect();
        self.status.port_name = Some(String::from_str(port_name));
        self.status.status = GpsConnectionStatus::Connecting;
        self.status.last_error = None;
        self.status.sentences_received = 0;
        self.data = GpsData::new();
        self.parser.reset();
        self.command_queue = Vec::new();
        proof {
            assert(frames(self.command_queue@) =~= Seq::empty());
        }
    }

    /// Records that the port was opened, unless the connection was ended
    /// meanwhile.
    pub fn port_opened(&mut self)
        ensures
            final(self)@ == old(self)@.opened(),
    {
        if self.status.status != GpsConnectionStatus::Disconnected {
            self.status.status = GpsConnectionStatus::Connected;
            self.status.last_error = None;
        }
    }

    /// Records a fatal error of the reader, unless the connection was ended
    /// meanwhile.
    pub fn fail(&mut self, error: String)
        ensures
            final(self)@ == old(self)@.failed(error@),
    {
        if self.status.status != GpsConnectionStatus::Disconnected {
            self.status.last_error = Some(error);
            self.status.status = GpsConnectionStatus::Error;
        }
    }

    /// Records the end of the connection.
    pub fn disconnect(&mut self)
        ensures
            final(self)@ == old(self)@.disconnected(),
    {
        self.status.status = GpsConnectionStatus::Disconnected;
    }

    /// Takes one line that the reader got from the port. Returns whether the
    /// line was taken as a sentence.
    pub fn on_line(&mut self, line: &str) -> (taken: bool)
        ensures
            final(self)@ == old(self)@.received(line@),
            taken == (!old(self)@.is_disconnected() && is_sentence(line@)),
    {
        if self.status.status == GpsConnectionStatus::Disconnected {
            return false;
        }
        let sentence: &str = trim(line);
        if !has_prefix(sentence.as_bytes(), "$".as_bytes()) {
            return false;
        }
        if self.status.sentences_received < u64::MAX {
            self.status.sentences_received = self.status.sentences_received + 1;
        }
        push_bounded(&mut self.nmea_buffer, String::from_str(sentence));
        match self.parser.parse_sentence(sentence) {
            Ok(partial) => self.data.merge(&partial),
            Err(_) => {},
        }
        self.status.status = GpsConnectionStatus::ReceivingData;
        if self.data.timestamp.is_some() {
            self.status.last_fix_time = clone_text(&self.data.timestamp);
        }
        true
    }

    /// Queues a burst of commands behind those that wait already.
    pub fn queue_commands(&mut self, burst: Vec<Vec<u8>>)
        ensures
            final(self)@ == (ManagerView {
                command_queue: old(self)@.command_queue + frames(burst@),
                ..old(self)@
            }),
    {
        let mut burst = burst;
        let ghost added = frames(burst@);
        self.command_queue.append(&mut burst);
        proof {
            assert(frames(self.command_queue@) =~= old(self)@.command_queue + added);
        }
    }

    /// Takes the command that has waited longest, if any waits.
    pub fn next_command(&mut self) -> (command: Option<Vec<u8>>)
        ensures
            match command {
                Some(c) => old(self)@.command_queue.len() > 0 && c@ == old(self)@.command_queue[0]
                    && final(self)@ == (ManagerView {
                    command_queue: old(self)@.command_queue.skip(1),
                    ..old(self)@
                }),
                None => old(self)@.command_queue.len() == 0 && final(self)@ == old(self)@,
            },
    {
        if self.command_queue.len() == 0 {
            return None;
        }
        let command: Vec<u8> = self.command_queue.remove(0);
        proof {
            assert(frames(self.command_queue@) =~= old(self)@.command_queue.skip(1));
        }
        Some(command)
    }
}

/// Adds `sentence` to the buffer of raw sentences, dropping the oldest ones
/// as far as the capacity demands.
pub fn push_bounded(buffer: &mut Vec<String>, sentence: String)
    ensures
        texts(final(buffer)@) == ring_pushed(texts(old(buffer)@), sentence@),
{
    let ghost before = texts(buffer@);
    while buffer.len() >= NMEA_BUFFER_SIZE
        invariant
            buffer@.len() <= before.len(),
            texts(buffer@) == before.subrange(before.len() - buffer@.len(), before.len() as int),
            buffer@.len() == before.len() || buffer@.len() >= NMEA_BUFFER_SIZE - 1,
        decreases buffer@.len(),
    {
        let ghost shorter = texts(buffer@);
        buffer.remove(0);
        proof {
            assert(texts(buffer@) =~= shorter.skip(1));
            assert(texts(buffer@) =~= before.subrange(
                before.len() - buffer@.len(),
                before.len() as int,
            ));
        }
    }
    proof {
        assert(buffer@.len() == if before.len() >= NMEA_BUFFER_SIZE {
            (NMEA_BUFFER_SIZE - 1) as nat
        } else {
            before.len()
        });
    }
    let ghost kept = texts(buffer@);
    buffer.push(sentence);
    proof {
        assert(texts(buffer@) =~= kept.push(sentence@));
        assert(texts(buffer@) =~= ring_pushed(before, sentence@));
    }
}

} // verus!
