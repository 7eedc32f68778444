//! UBX binary protocol: framing, Fletcher-8 checksum, the fixed catalogue of
//! marine configuration messages and the MON-VER identity parser.

use crate::text::{
    ascii_text, clone_texts, contains, decode_lossy, has_infix, has_prefix,
    lemma_ascii_reads_plainly, lemma_trim_nuls_is_prefix, starts_with, strip_leading,
    strip_prefix_all, text_from, texts, trim_nuls, trim_trailing_nuls,
};
use vstd::prelude::*;
use vstd::slice::{slice_subrange, slice_to_vec};
use vstd::string::*;

verus! {

/// First byte of the sync pair that begins every frame.
pub const UBX_SYNC_1: u8 = 0xB5;

/// Second byte of the sync pair.
pub const UBX_SYNC_2: u8 = 0x62;

/// Message class of configuration messages.
pub const UBX_CLASS_CFG: u8 = 0x06;

/// Message class of monitoring messages.
pub const UBX_CLASS_MON: u8 = 0x0A;

/// MON-VER: receiver and software version.
pub const UBX_MON_VER: u8 = 0x04;

/// CFG-GNSS: constellations and their channels.
pub const UBX_CFG_GNSS: u8 = 0x3E;

/// CFG-NAV5: navigation engine settings.
pub const UBX_CFG_NAV5: u8 = 0x24;

/// CFG-RATE: measurement and navigation rate.
pub const UBX_CFG_RATE: u8 = 0x08;

/// CFG-SBAS: augmentation system settings.
pub const UBX_CFG_SBAS: u8 = 0x16;

/// CFG-MSG: output rate of one message.
pub const UBX_CFG_MSG: u8 = 0x01;

/// CFG-NMEA: NMEA protocol settings.
pub const UBX_CFG_NMEA: u8 = 0x17;

/// CFG-CFG: clear, save and load configurations.
pub const UBX_CFG_CFG: u8 = 0x09;

/// Fletcher-8 over `data`: for every byte in order, `ck_a += b; ck_b += ck_a`,
/// both modulo 256.
pub open spec fn fletcher(data: Seq<u8>) -> (u8, u8)
    decreases data.len(),
{
    if data.len() == 0 {
        (0u8, 0u8)
    } else {
        let prev = fletcher(data.drop_last());
        let a = ((prev.0 as int + data.last() as int) % 256) as u8;
        let b = ((prev.1 as int + a as int) % 256) as u8;
        (a, b)
    }
}

/// The part of a frame that the checksum covers: class, id, little-endian
/// length and payload. The length field holds the payload length modulo 65536.
pub open spec fn ubx_body(class: u8, id: u8, payload: Seq<u8>) -> Seq<u8> {
    seq![class, id, (payload.len() % 256) as u8, ((payload.len() / 256) % 256) as u8] + payload
}

/// A complete frame: sync pair, body, checksum pair.
pub open spec fn ubx_frame(class: u8, id: u8, payload: Seq<u8>) -> Seq<u8> {
    let body = ubx_body(class, id, payload);
    let ck = fletcher(body);
    seq![0xB5u8, 0x62u8] + body + seq![ck.0, ck.1]
}

fn checksum_from(data: &[u8], start: usize) -> (ck: (u8, u8))
    requires
        start <= data@.len(),
    ensures
        ck == fletcher(data@.subrange(start as int, data@.len() as int)),
{
    let mut ck_a: u8 = 0;
    let mut ck_b: u8 = 0;
    let mut i: usize = start;
    while i < data.len()
        invariant
            start <= i <= data@.len(),
            (ck_a, ck_b) == fletcher(data@.subrange(start as int, i as int)),
        decreases data@.len() - i,
    {
        proof {
            let next = data@.subrange(start as int, i as int + 1);
            assert(next.drop_last() =~= data@.subrange(start as int, i as int));
            assert(next.last() == data@[i as int]);
        }
        ck_a = ck_a.wrapping_add(data[i]);
        ck_b = ck_b.wrapping_add(ck_a);
        i += 1;
    }
    (ck_a, ck_b)
}

/// Fletcher-8 checksum of `data`.
pub fn ubx_checksum(data: &[u8]) -> (ck: (u8, u8))
    ensures
        ck == fletcher(data@),
{
    proof {
        assert(data@.subrange(0, data@.len() as int) =~= data@);
    }
    checksum_from(data, 0)
}

/// Frames `payload` as a UBX message of the given class and id.
pub fn build_ubx_message(class: u8, id: u8, payload: &[u8]) -> (msg: Vec<u8>)
    ensures
        msg@ == ubx_frame(class, id, payload@),
{
    let n: usize = payload.len();
    let mut msg: Vec<u8> = Vec::new();
    msg.push(UBX_SYNC_1);
    msg.push(UBX_SYNC_2);
    msg.push(class);
    msg.push(id);
    msg.push((n % 256) as u8);
    msg.push(((n / 256) % 256) as u8);
    msg.extend_from_slice(payload);
    proof {
        assert(msg@.subrange(2, msg@.len() as int) =~= ubx_body(class, id, payload@));
    }
    let ck: (u8, u8) = checksum_from(msg.as_slice(), 2);
    msg.push(ck.0);
    msg.push(ck.1);
    proof {
        assert(msg@ =~= ubx_frame(class, id, payload@));
    }
    msg
}

/// Why a byte sequence yields no frame.
#[derive(Debug, Clone, Copy, PartialEq, Eq)]
pub enum UbxError {
    /// No sync pair `B5 62` occurs anywhere in the input.
    NoSync,
    /// A sync pair starts at `start`, but the input ends before the frame does.
    Truncated { start: usize },
    /// The frame that starts at `start` carries a wrong checksum.
    BadChecksum { start: usize },
}

/// One decoded message.
#[derive(Debug)]
pub struct UbxFrame {
    pub class: u8,
    pub id: u8,
    pub payload: Vec<u8>,
}

impl View for UbxFrame {
    type V = (u8, u8, Seq<u8>);

    open spec fn view(&self) -> (u8, u8, Seq<u8>) {
        (self.class, self.id, self.payload@)
    }
}

/// A sync pair starts at offset `i`.
pub open spec fn sync_at(data: Seq<u8>, i: int) -> bool {
    0 <= i && i + 1 < data.len() && data[i] == 0xB5u8 && data[i + 1] == 0x62u8
}

/// Offset of the first sync pair at or after `from`; `data.len()` when there
/// is none.
pub open spec fn find_sync(data: Seq<u8>, from: int) -> int
    decreases data.len() - from,
{
    if from < 0 || from + 1 >= data.len() {
        data.len() as int
    } else if sync_at(data, from) {
        from
    } else {
        find_sync(data, from + 1)
    }
}

/// What the bytes from offset `s` on yield, where a sync pair starts at `s`:
/// the frame together with the offset just past it, or the reason why they
/// are not a frame.
pub open spec fn decode_at(data: Seq<u8>, s: int) -> Result<((u8, u8, Seq<u8>), int), UbxError> {
    if s + 6 > data.len() {
        Err(UbxError::Truncated { start: s as usize })
    } else {
        let len = data[s + 4] as int + 256 * (data[s + 5] as int);
        if s + 8 + len > data.len() {
            Err(UbxError::Truncated { start: s as usize })
        } else {
            let ck = fletcher(data.subrange(s + 2, s + 6 + len));
            if ck.0 == data[s + 6 + len] && ck.1 == data[s + 7 + len] {
                Ok(((data[s + 2], data[s + 3], data.subrange(s + 6, s + 6 + len)), s + 8 + len))
            } else {
                Err(UbxError::BadChecksum { start: s as usize })
            }
        }
    }
}

/// What decoding `data` yields: the first frame together with the offset just
/// past it, or the reason why the bytes from the first sync pair on are not a
/// frame. Bytes in front of the first sync pair are ignored.
pub open spec fn ubx_decode_spec(data: Seq<u8>) -> Result<((u8, u8, Seq<u8>), int), UbxError> {
    let s = find_sync(data, 0);
    if s >= data.len() {
        Err(UbxError::NoSync)
    } else {
        decode_at(data, s)
    }
}

/// `find_sync` returns the first sync pair: it lies in range, is a sync pair
/// unless it is the end of the input, and no sync pair starts before it.
pub proof fn lemma_find_sync_is_first(data: Seq<u8>, from: int)
    requires
        0 <= from <= data.len(),
    ensures
        from <= find_sync(data, from) <= data.len(),
        find_sync(data, from) < data.len() ==> sync_at(data, find_sync(data, from)),
        forall|j: int| from <= j < find_sync(data, from) ==> !sync_at(data, j),
    decreases data.len() - from,
{
    if from + 1 >= data.len() {
    } else if sync_at(data, from) {
    } else {
        lemma_find_sync_is_first(data, from + 1);
    }
}

/// Offset of the first sync pair in `data`; `data.len()` when there is none.
pub fn sync_offset(data: &[u8]) -> (s: usize)
    ensures
        s == find_sync(data@, 0),
        s <= data@.len(),
{
    let n: usize = data.len();
    let mut s: usize = 0;
    while s < n && !(n - s >= 2 && data[s] == UBX_SYNC_1 && data[s + 1] == UBX_SYNC_2)
        invariant
            s <= n,
            n == data@.len(),
            find_sync(data@, 0) == find_sync(data@, s as int) || (s == n && find_sync(data@, 0)
                == n),
        decreases n - s,
    {
        proof {
            if s + 1 >= n {
                assert(find_sync(data@, s as int) == n);
            }
        }
        s += 1;
    }
    s
}

/// Scans `data` for the first sync pair and decodes the frame that starts
/// there. On success the second component is the offset just past the frame,
/// where scanning may resume.
pub fn ubx_decode(data: &[u8]) -> (r: Result<(UbxFrame, usize), UbxError>)
    ensures
        match r {
            Ok((frame, end)) => ubx_decode_spec(data@) == Ok::<_, UbxError>((frame@, end as int)),
            Err(e) => ubx_decode_spec(data@) == Err::<((u8, u8, Seq<u8>), int), _>(e),
        },
{
    let n: usize = data.len();
    let s: usize = sync_offset(data);
    if s >= n {
        return Err(UbxError::NoSync);
    }
    proof {
        lemma_find_sync_is_first(data@, 0);
    }
    if n - s < 6 {
        return Err(UbxError::Truncated { start: s });
    }
    let len: usize = data[s + 4] as usize + 256 * (data[s + 5] as usize);
    if n - s < 8 || n - s - 8 < len {
        return Err(UbxError::Truncated { start: s });
    }
    let body: &[u8] = slice_subrange(data, s + 2, s + 6 + len);
    let ck: (u8, u8) = ubx_checksum(body);
    if ck.0 != data[s + 6 + len] || ck.1 != data[s + 7 + len] {
        return Err(UbxError::BadChecksum { start: s });
    }
    let payload: Vec<u8> = slice_to_vec(slice_subrange(data, s + 6, s + 6 + len));
    Ok((UbxFrame { class: data[s + 2], id: data[s + 3], payload }, s + 8 + len))
}

/// Where the parts of a frame stand: the sync pair, class, id and length in
/// the first six bytes, then the payload, then the checksum of everything
/// between the sync pair and itself.
pub proof fn lemma_frame_layout(class: u8, id: u8, payload: Seq<u8>)
    ensures
        ubx_frame(class, id, payload).len() == payload.len() + 8,
        ubx_frame(class, id, payload)[0] == 0xB5,
        ubx_frame(class, id, payload)[1] == 0x62,
        ubx_frame(class, id, payload)[2] == class,
        ubx_frame(class, id, payload)[3] == id,
        ubx_frame(class, id, payload)[4] == (payload.len() % 256) as u8,
        ubx_frame(class, id, payload)[5] == ((payload.len() / 256) % 256) as u8,
        ubx_frame(class, id, payload).subrange(2, 6 + payload.len() as int) == ubx_body(
            class,
            id,
            payload,
        ),
        ubx_frame(class, id, payload).subrange(6, 6 + payload.len() as int) == payload,
        ubx_frame(class, id, payload)[6 + payload.len() as int] == fletcher(
            ubx_body(class, id, payload),
        ).0,
        ubx_frame(class, id, payload)[7 + payload.len() as int] == fletcher(
            ubx_body(class, id, payload),
        ).1,
{
    let head = seq![class, id, (payload.len() % 256) as u8, ((payload.len() / 256) % 256) as u8];
    let body = head + payload;
    let ck = fletcher(body);
    let sync = seq![0xB5u8, 0x62u8];
    let tail = seq![ck.0, ck.1];
    let frame = sync + body + tail;
    assert(body == ubx_body(class, id, payload));
    assert(frame == ubx_frame(class, id, payload));
    assert(head.len() == 4);
    assert(body.len() == payload.len() + 4);
    assert(frame.len() == payload.len() + 8);
    assert(frame[0] == sync[0]);
    assert(frame[1] == sync[1]);
    assert(frame[2] == body[0] && body[0] == head[0]);
    assert(frame[3] == body[1] && body[1] == head[1]);
    assert(frame[4] == body[2] && body[2] == head[2]);
    assert(frame[5] == body[3] && body[3] == head[3]);
    assert(frame[6 + payload.len() as int] == tail[0]);
    assert(frame[7 + payload.len() as int] == tail[1]);
    assert(frame.subrange(2, 6 + payload.len() as int) =~= body);
    assert(frame.subrange(6, 6 + payload.len() as int) =~= payload);
}

/// The two length bytes of a frame give the payload length back as long as
/// it fits them.
pub proof fn lemma_length_field(n: nat)
    requires
        n <= 65535,
    ensures
        ((n % 256) as u8) as int + 256 * ((((n / 256) % 256) as u8) as int) == n,
{
}

/// Decoding an encoded message gives the message back: for every class, id
/// and payload that the two-byte length field can describe, the decoder
/// returns exactly these three and consumes the whole frame.
pub proof fn lemma_decode_encode_roundtrip(class: u8, id: u8, payload: Seq<u8>)
    requires
        payload.len() <= 65535,
    ensures
        ubx_decode_spec(ubx_frame(class, id, payload)) == Ok::<_, UbxError>(
            ((class, id, payload), ubx_frame(class, id, payload).len() as int),
        ),
{
    let frame = ubx_frame(class, id, payload);
    let n = payload.len() as int;
    lemma_frame_layout(class, id, payload);
    lemma_length_field(payload.len());
    assert(sync_at(frame, 0));
    assert(find_sync(frame, 0) == 0);
    let len = frame[4] as int + 256 * (frame[5] as int);
    assert(len == n);
    assert(frame.subrange(2, 6 + len) == ubx_body(class, id, payload));
    assert(frame.subrange(6, 6 + len) == payload);
    assert(decode_at(frame, 0) == Ok::<_, UbxError>(((class, id, payload), n + 8)));
}

/// Detected u-blox receiver generation.
#[derive(Debug, Clone, Copy, PartialEq, Eq, Structural)]
pub enum UbloxSeries {
    Series7,
    Series8,
    Unknown,
}

impl UbloxSeries {
    /// Human-readable name of the generation.
    pub fn to_string(&self) -> (text: String)
        ensures
            text@ == match *self {
                UbloxSeries::Series7 => "Series 7"@,
                UbloxSeries::Series8 => "Series 8"@,
                UbloxSeries::Unknown => "Unknown"@,
            },
    {
        match self {
            UbloxSeries::Series7 => String::from_str("Series 7"),
            UbloxSeries::Series8 => String::from_str("Series 8"),
            UbloxSeries::Unknown => String::from_str("Unknown"),
        }
    }
}

/// The frames held in a list of byte vectors.
pub open spec fn frames(list: Seq<Vec<u8>>) -> Seq<Seq<u8>> {
    list.map_values(|f: Vec<u8>| f@)
}

/// MON-VER poll: class 0x0A, id 0x04, no payload.
pub fn build_mon_ver_poll() -> (msg: Vec<u8>)
    ensures
        msg@ == ubx_frame(UBX_CLASS_MON, UBX_MON_VER, Seq::<u8>::empty()),
{
    let payload: Vec<u8> = Vec::new();
    build_ubx_message(UBX_CLASS_MON, UBX_MON_VER, payload.as_slice())
}

/// CFG-GNSS header: message version 0, hardware channel count 0 (read-only),
/// all channels usable, `blocks` configuration blocks.
pub open spec fn gnss_header(blocks: u8) -> Seq<u8> {
    seq![0x00u8, 0x00u8, 0xFFu8, blocks]
}

/// One enabled CFG-GNSS configuration block: system id, reserved and maximum
/// tracking channels, a reserved byte and the flags word `0x01_01_00_01`
/// (enabled, signal configuration 1).
pub open spec fn gnss_block(gnss_id: u8, reserved_channels: u8, max_channels: u8) -> Seq<u8> {
    seq![gnss_id, reserved_channels, max_channels, 0x00u8, 0x01u8, 0x00u8, 0x01u8, 0x01u8]
}

/// CFG-GNSS payload for series 7: GPS and SBAS, two blocks.
pub open spec fn gnss_series7_payload() -> Seq<u8> {
    gnss_header(2) + gnss_block(0, 8, 16) + gnss_block(1, 1, 3)
}

/// CFG-GNSS payload for series 8: GPS, SBAS, Galileo and GLONASS, four blocks.
pub open spec fn gnss_series8_payload() -> Seq<u8> {
    gnss_header(4) + gnss_block(0, 8, 16) + gnss_block(1, 1, 3) + gnss_block(2, 4, 8) + gnss_block(
        6,
        8,
        14,
    )
}

fn push_gnss_block(payload: &mut Vec<u8>, gnss_id: u8, reserved_channels: u8, max_channels: u8)
    ensures
        final(payload)@ == old(payload)@ + gnss_block(gnss_id, reserved_channels, max_channels),
{
    payload.push(gnss_id);
    payload.push(reserved_channels);
    payload.push(max_channels);
    payload.push(0x00);
    payload.push(0x01);
    payload.push(0x00);
    payload.push(0x01);
    payload.push(0x01);
    proof {
        assert(payload@ =~= old(payload)@ + gnss_block(gnss_id, reserved_channels, max_channels));
    }
}

/// CFG-GNSS for series 7 receivers, which cannot track several systems at
/// once: GPS plus SBAS.
pub fn build_cfg_gnss_series7_marine() -> (msg: Vec<u8>)
    ensures
        msg@ == ubx_frame(UBX_CLASS_CFG, UBX_CFG_GNSS, gnss_series7_payload()),
        msg@[9] == 2,
{
    let mut payload: Vec<u8> = vec![0x00u8, 0x00u8, 0xFFu8, 0x02u8];
    proof {
        assert(payload@ =~= gnss_header(2));
    }
    push_gnss_block(&mut payload, 0, 8, 16);
    push_gnss_block(&mut payload, 1, 1, 3);
    proof {
        lemma_frame_layout(UBX_CLASS_CFG, UBX_CFG_GNSS, gnss_series7_payload());
        assert(gnss_series7_payload()[3] == 2);
        assert(ubx_frame(UBX_CLASS_CFG, UBX_CFG_GNSS, gnss_series7_payload())[9]
            == ubx_frame(UBX_CLASS_CFG, UBX_CFG_GNSS, gnss_series7_payload()).subrange(
            6,
            6 + gnss_series7_payload().len() as int,
        )[3]);
    }
    build_ubx_message(UBX_CLASS_CFG, UBX_CFG_GNSS, payload.as_slice())
}

/// CFG-GNSS for series 8 receivers: GPS, SBAS, Galileo and GLONASS.
pub fn build_cfg_gnss_series8_marine() -> (msg: Vec<u8>)
    ensures
        msg@ == ubx_frame(UBX_CLASS_CFG, UBX_CFG_GNSS, gnss_series8_payload()),
        msg@[9] == 4,
{
    let mut payload: Vec<u8> = vec![0x00u8, 0x00u8, 0xFFu8, 0x04u8];
    proof {
        assert(payload@ =~= gnss_header(4));
    }
    push_gnss_block(&mut payload, 0, 8, 16);
    push_gnss_block(&mut payload, 1, 1, 3);
    push_gnss_block(&mut payload, 2, 4, 8);
    push_gnss_block(&mut payload, 6, 8, 14);
    proof {
        lemma_frame_layout(UBX_CLASS_CFG, UBX_CFG_GNSS, gnss_series8_payload());
        assert(gnss_series8_payload()[3] == 4);
        assert(ubx_frame(UBX_CLASS_CFG, UBX_CFG_GNSS, gnss_series8_payload())[9]
            == ubx_frame(UBX_CLASS_CFG, UBX_CFG_GNSS, gnss_series8_payload()).subrange(
            6,
            6 + gnss_series8_payload().len() as int,
        )[3]);
    }
    build_ubx_message(UBX_CLASS_CFG, UBX_CFG_GNSS, payload.as_slice())
}

/// CFG-NAV5 payload, 36 bytes: mask 0x0001 (apply the dynamic model), dynModel
/// 5 (sea), fixMode 3 (automatic 2D/3D), fixedAlt 0, fixedAltVar 10000,
/// minElev 5 degrees, drLimit 0, pDop and tDop 250, pAcc 100, tAcc 300,
/// staticHoldThresh 0, and zeros in everything that follows.
pub open spec fn nav5_sea_payload() -> Seq<u8> {
    seq![
        0x01u8, 0x00u8,
        0x05u8,
        0x03u8,
        0x00u8, 0x00u8, 0x00u8, 0x00u8,
        0x10u8, 0x27u8, 0x00u8, 0x00u8,
        0x05u8,
        0x00u8,
        0xFAu8, 0x00u8,
        0xFAu8, 0x00u8,
        0x64u8, 0x00u8,
        0x2Cu8, 0x01u8,
        0x00u8,
        0x00u8,
        0x00u8, 0x00u8, 0x00u8, 0x00u8,
        0x00u8, 0x00u8,
        0x00u8,
        0x00u8, 0x00u8, 0x00u8, 0x00u8, 0x00u8,
    ]
}

/// CFG-NAV5 with the sea dynamic model.
pub fn build_cfg_nav5_sea() -> (msg: Vec<u8>)
    ensures
        msg@ == ubx_frame(UBX_CLASS_CFG, UBX_CFG_NAV5, nav5_sea_payload()),
{
    let payload: Vec<u8> = vec![
        0x01u8, 0x00u8,
        0x05u8,
        0x03u8,
        0x00u8, 0x00u8, 0x00u8, 0x00u8,
        0x10u8, 0x27u8, 0x00u8, 0x00u8,
        0x05u8,
        0x00u8,
        0xFAu8, 0x00u8,
        0xFAu8, 0x00u8,
        0x64u8, 0x00u8,
        0x2Cu8, 0x01u8,
        0x00u8,
        0x00u8,
        0x00u8, 0x00u8, 0x00u8, 0x00u8,
        0x00u8, 0x00u8,
        0x00u8,
        0x00u8, 0x00u8, 0x00u8, 0x00u8, 0x00u8,
    ];
    proof {
        assert(payload@ =~= nav5_sea_payload());
    }
    build_ubx_message(UBX_CLASS_CFG, UBX_CFG_NAV5, payload.as_slice())
}

/// CFG-RATE payload: measRate 1000 ms, navRate 1 cycle, timeRef 1 (GPS time),
/// each a little-endian 16-bit word.
pub open spec fn rate_1hz_payload() -> Seq<u8> {
    seq![0xE8u8, 0x03u8, 0x01u8, 0x00u8, 0x01u8, 0x00u8]
}

/// CFG-RATE at one navigation solution per second.
pub fn build_cfg_rate_1hz() -> (msg: Vec<u8>)
    ensures
        msg@ == ubx_frame(UBX_CLASS_CFG, UBX_CFG_RATE, rate_1hz_payload()),
{
    let payload: Vec<u8> = vec![0xE8u8, 0x03u8, 0x01u8, 0x00u8, 0x01u8, 0x00u8];
    proof {
        assert(payload@ =~= rate_1hz_payload());
    }
    build_ubx_message(UBX_CLASS_CFG, UBX_CFG_RATE, payload.as_slice())
}

/// CFG-SBAS payload: mode 1 (enabled), usage 7 (ranging, differential
/// corrections, integrity), maxSBAS 3, scan modes 0 (search every PRN).
pub open spec fn sbas_enable_payload() -> Seq<u8> {
    seq![0x01u8, 0x07u8, 0x03u8, 0x00u8, 0x00u8, 0x00u8, 0x00u8, 0x00u8]
}

/// CFG-SBAS with SBAS enabled.
pub fn build_cfg_sbas_enable() -> (msg: Vec<u8>)
    ensures
        msg@ == ubx_frame(UBX_CLASS_CFG, UBX_CFG_SBAS, sbas_enable_payload()),
{
    let payload: Vec<u8> = vec![0x01u8, 0x07u8, 0x03u8, 0x00u8, 0x00u8, 0x00u8, 0x00u8, 0x00u8];
    proof {
        assert(payload@ =~= sbas_enable_payload());
    }
    build_ubx_message(UBX_CLASS_CFG, UBX_CFG_SBAS, payload.as_slice())
}

/// Id of the GGA sentence within the class of standard NMEA messages.
pub const NMEA_GGA: u8 = 0x00;

/// Id of the GLL sentence.
pub const NMEA_GLL: u8 = 0x01;

/// Id of the GSA sentence.
pub const NMEA_GSA: u8 = 0x02;

/// Id of the GSV sentence.
pub const NMEA_GSV: u8 = 0x03;

/// Id of the RMC sentence.
pub const NMEA_RMC: u8 = 0x04;

/// Id of the VTG sentence.
pub const NMEA_VTG: u8 = 0x05;

/// CFG-MSG payload in its eight-byte form: message class 0xF0 (standard
/// NMEA), the sentence id, then the output rate per port: I2C 0, UART1 `rate`,
/// UART2 0, USB `rate`, SPI 0 and a reserved 0.
pub open spec fn cfg_msg_payload(nmea_msg_id: u8, rate: u8) -> Seq<u8> {
    seq![0xF0u8, nmea_msg_id, 0x00u8, rate, 0x00u8, rate, 0x00u8, 0x00u8]
}

/// CFG-MSG that sets the output rate of one NMEA sentence on UART1 and USB.
pub fn build_cfg_msg(nmea_msg_id: u8, rate: u8) -> (msg: Vec<u8>)
    ensures
        msg@ == ubx_frame(UBX_CLASS_CFG, UBX_CFG_MSG, cfg_msg_payload(nmea_msg_id, rate)),
{
    let payload: Vec<u8> = vec![0xF0u8, nmea_msg_id, 0x00u8, rate, 0x00u8, rate, 0x00u8, 0x00u8];
    proof {
        assert(payload@ =~= cfg_msg_payload(nmea_msg_id, rate));
    }
    build_ubx_message(UBX_CLASS_CFG, UBX_CFG_MSG, payload.as_slice())
}

/// The sentence selection as frames: GGA, RMC, VTG, GSA and GSV at rate 1,
/// GLL switched off.
pub open spec fn nmea_message_config_frames() -> Seq<Seq<u8>> {
    seq![
        ubx_frame(UBX_CLASS_CFG, UBX_CFG_MSG, cfg_msg_payload(NMEA_GGA, 1)),
        ubx_frame(UBX_CLASS_CFG, UBX_CFG_MSG, cfg_msg_payload(NMEA_RMC, 1)),
        ubx_frame(UBX_CLASS_CFG, UBX_CFG_MSG, cfg_msg_payload(NMEA_VTG, 1)),
        ubx_frame(UBX_CLASS_CFG, UBX_CFG_MSG, cfg_msg_payload(NMEA_GSA, 1)),
        ubx_frame(UBX_CLASS_CFG, UBX_CFG_MSG, cfg_msg_payload(NMEA_GSV, 1)),
        ubx_frame(UBX_CLASS_CFG, UBX_CFG_MSG, cfg_msg_payload(NMEA_GLL, 0)),
    ]
}

/// One CFG-MSG per NMEA sentence of the selection, in a fixed order.
pub fn build_nmea_message_config() -> (list: Vec<Vec<u8>>)
    ensures
        frames(list@) == nmea_message_config_frames(),
{
    let mut list: Vec<Vec<u8>> = Vec::new();
    list.push(build_cfg_msg(NMEA_GGA, 1));
    list.push(build_cfg_msg(NMEA_RMC, 1));
    list.push(build_cfg_msg(NMEA_VTG, 1));
    list.push(build_cfg_msg(NMEA_GSA, 1));
    list.push(build_cfg_msg(NMEA_GSV, 1));
    list.push(build_cfg_msg(NMEA_GLL, 0));
    proof {
        assert(frames(list@) =~= nmea_message_config_frames());
    }
    list
}

/// CFG-NMEA payload, version 0 layout of 12 bytes: filter 0, NMEA version
/// 2.3, numSV 0 (unlimited), flags 0x02, and main talker id 1 in the last
/// byte.
pub open spec fn nmea_extended_payload() -> Seq<u8> {
    seq![
        0x00u8, 0x23u8, 0x00u8, 0x02u8, 0x00u8, 0x00u8,
        0x00u8, 0x00u8, 0x00u8, 0x00u8, 0x00u8, 0x01u8,
    ]
}

/// CFG-NMEA that switches on extended talker ids.
pub fn build_cfg_nmea_extended() -> (msg: Vec<u8>)
    ensures
        msg@ == ubx_frame(UBX_CLASS_CFG, UBX_CFG_NMEA, nmea_extended_payload()),
{
    let payload: Vec<u8> = vec![
        0x00u8, 0x23u8, 0x00u8, 0x02u8, 0x00u8, 0x00u8,
        0x00u8, 0x00u8, 0x00u8, 0x00u8, 0x00u8, 0x01u8,
    ];
    proof {
        assert(payload@ =~= nmea_extended_payload());
    }
    build_ubx_message(UBX_CLASS_CFG, UBX_CFG_NMEA, payload.as_slice())
}

/// CFG-CFG payload: clearMask 0, saveMask 0x0000_1F1F (every section),
/// loadMask 0, deviceMask 0x17 (battery-backed RAM, flash, EEPROM, SPI flash).
pub open spec fn save_all_payload() -> Seq<u8> {
    seq![
        0x00u8, 0x00u8, 0x00u8, 0x00u8,
        0x1Fu8, 0x1Fu8, 0x00u8, 0x00u8,
        0x00u8, 0x00u8, 0x00u8, 0x00u8,
        0x17u8,
    ]
}

/// CFG-CFG that saves the current configuration to every non-volatile store.
pub fn build_cfg_save_all() -> (msg: Vec<u8>)
    ensures
        msg@ == ubx_frame(UBX_CLASS_CFG, UBX_CFG_CFG, save_all_payload()),
{
    let payload: Vec<u8> = vec![
        0x00u8, 0x00u8, 0x00u8, 0x00u8,
        0x1Fu8, 0x1Fu8, 0x00u8, 0x00u8,
        0x00u8, 0x00u8, 0x00u8, 0x00u8,
        0x17u8,
    ];
    proof {
        assert(payload@ =~= save_all_payload());
    }
    build_ubx_message(UBX_CLASS_CFG, UBX_CFG_CFG, payload.as_slice())
}

/// The CFG-GNSS frame that suits `series`; an unidentified receiver is
/// treated like series 8.
pub open spec fn gnss_frame_for(series: UbloxSeries) -> Seq<u8> {
    match series {
        UbloxSeries::Series7 => ubx_frame(UBX_CLASS_CFG, UBX_CFG_GNSS, gnss_series7_payload()),
        _ => ubx_frame(UBX_CLASS_CFG, UBX_CFG_GNSS, gnss_series8_payload()),
    }
}

/// The marine optimisation profile for `series` as an ordered list of frames:
/// constellations, dynamic model, rate, SBAS, talker ids, sentence selection,
/// and the save command at the end.
pub open spec fn optimization_frames(series: UbloxSeries) -> Seq<Seq<u8>> {
    seq![
        gnss_frame_for(series),
        ubx_frame(UBX_CLASS_CFG, UBX_CFG_NAV5, nav5_sea_payload()),
        ubx_frame(UBX_CLASS_CFG, UBX_CFG_RATE, rate_1hz_payload()),
        ubx_frame(UBX_CLASS_CFG, UBX_CFG_SBAS, sbas_enable_payload()),
        ubx_frame(UBX_CLASS_CFG, UBX_CFG_NMEA, nmea_extended_payload()),
    ] + nmea_message_config_frames() + seq![
        ubx_frame(UBX_CLASS_CFG, UBX_CFG_CFG, save_all_payload()),
    ]
}

/// The complete ordered command list of the marine profile for `series`.
pub fn get_optimization_commands(series: &UbloxSeries) -> (commands: Vec<Vec<u8>>)
    ensures
        frames(commands@) == optimization_frames(*series),
        commands@.len() == 12,
{
    let mut commands: Vec<Vec<u8>> = Vec::new();
    match series {
        UbloxSeries::Series7 => commands.push(build_cfg_gnss_series7_marine()),
        UbloxSeries::Series8 | UbloxSeries::Unknown => {
            commands.push(build_cfg_gnss_series8_marine());
        },
    }
    commands.push(build_cfg_nav5_sea());
    commands.push(build_cfg_rate_1hz());
    commands.push(build_cfg_sbas_enable());
    commands.push(build_cfg_nmea_extended());
    let mut sentences: Vec<Vec<u8>> = build_nmea_message_config();
    proof {
        assert(frames(sentences@).len() == 6);
    }
    commands.append(&mut sentences);
    commands.push(build_cfg_save_all());
    proof {
        assert(frames(commands@) =~= optimization_frames(*series));
    }
    commands
}

/// Whatever the series, the profile's command list is not empty and its last
/// frame is CFG-CFG (class 0x06, id 0x09) with the save-all payload.
pub proof fn lemma_optimization_commands_end_with_save(series: UbloxSeries)
    ensures
        optimization_frames(series).len() == 12,
        optimization_frames(series).last() == ubx_frame(
            UBX_CLASS_CFG,
            UBX_CFG_CFG,
            save_all_payload(),
        ),
        optimization_frames(series).last()[0] == 0xB5,
        optimization_frames(series).last()[1] == 0x62,
        optimization_frames(series).last()[2] == 0x06,
        optimization_frames(series).last()[3] == 0x09,
{
    let save = ubx_frame(UBX_CLASS_CFG, UBX_CFG_CFG, save_all_payload());
    let list = optimization_frames(series);
    assert(nmea_message_config_frames().len() == 6);
    assert(list.len() == 12);
    assert(list[11] == save);
    lemma_frame_layout(UBX_CLASS_CFG, UBX_CFG_CFG, save_all_payload());
}

/// Display name of the profile that is applied to `series`.
pub open spec fn profile_name_of(series: UbloxSeries) -> Seq<char> {
    match series {
        UbloxSeries::Series7 => "Series 7 Marine (GPS + SBAS)"@,
        UbloxSeries::Series8 => "Series 8 Marine (GPS + GLONASS + Galileo + SBAS)"@,
        UbloxSeries::Unknown => "Generic Marine"@,
    }
}

/// Display name of the profile that is applied to `series`.
pub fn profile_name(series: &UbloxSeries) -> (name: &'static str)
    ensures
        name@ == profile_name_of(*series),
{
    match series {
        UbloxSeries::Series7 => "Series 7 Marine (GPS + SBAS)",
        UbloxSeries::Series8 => "Series 8 Marine (GPS + GLONASS + Galileo + SBAS)",
        UbloxSeries::Unknown => "Generic Marine",
    }
}

/// Identity of a receiver as reported in a MON-VER reply.
#[derive(Debug)]
pub struct UbloxChipInfo {
    pub sw_version: String,
    pub hw_version: String,
    pub extensions: Vec<String>,
    pub series: UbloxSeries,
    pub chip_name: String,
}

/// Mathematical value of a `UbloxChipInfo`.
pub ghost struct ChipView {
    pub sw_version: Seq<char>,
    pub hw_version: Seq<char>,
    pub extensions: Seq<Seq<char>>,
    pub series: UbloxSeries,
    pub chip_name: Seq<char>,
}

impl View for UbloxChipInfo {
    type V = ChipView;

    open spec fn view(&self) -> ChipView {
        ChipView {
            sw_version: self.sw_version@,
            hw_version: self.hw_version@,
            extensions: texts(self.extensions@),
            series: self.series,
            chip_name: self.chip_name@,
        }
    }
}

impl Clone for UbloxChipInfo {
    fn clone(&self) -> (copy: UbloxChipInfo)
        ensures
            copy@ == self@,
    {
        UbloxChipInfo {
            sw_version: self.sw_version.clone(),
            hw_version: self.hw_version.clone(),
            extensions: clone_texts(&self.extensions),
            series: self.series,
            chip_name: self.chip_name.clone(),
        }
    }
}

/// The value of an optional identity.
pub open spec fn chip_view_of(info: Option<UbloxChipInfo>) -> Option<ChipView> {
    match info {
        Some(i) => Some(i@),
        None => None,
    }
}

/// Software version field: the first 30 bytes without trailing NULs.
pub open spec fn sw_version_bytes(payload: Seq<u8>) -> Seq<u8> {
    trim_nuls(payload.subrange(0, 30))
}

/// Hardware version field: bytes 30 to 39 without trailing NULs.
pub open spec fn hw_version_bytes(payload: Seq<u8>) -> Seq<u8> {
    trim_nuls(payload.subrange(30, 40))
}

/// The `k`-th 30-byte extension block after the two version fields, without
/// trailing NULs.
pub open spec fn extension_block(payload: Seq<u8>, k: int) -> Seq<u8> {
    trim_nuls(payload.subrange(40 + 30 * k, 70 + 30 * k))
}

/// The non-empty ones among the first `k` extension blocks, in order.
pub open spec fn extensions_upto(payload: Seq<u8>, k: int) -> Seq<Seq<u8>>
    decreases k,
{
    if k <= 0 {
        Seq::empty()
    } else {
        let before = extensions_upto(payload, k - 1);
        let block = extension_block(payload, k - 1);
        if block.len() > 0 {
            before.push(block)
        } else {
            before
        }
    }
}

/// Every non-empty extension string of a payload of at least 40 bytes. A
/// trailing rest of fewer than 30 bytes is ignored.
pub open spec fn extension_bytes(payload: Seq<u8>) -> Seq<Seq<u8>> {
    extensions_upto(payload, (payload.len() - 40) / 30)
}

/// Hardware versions of series 7: they contain `G70` or begin with `00070`.
pub open spec fn is_series7_hw(hw: Seq<u8>) -> bool {
    contains(hw, "G70".spec_bytes()) || starts_with(hw, "00070".spec_bytes())
}

/// Hardware versions of series 8: they contain `M80` or `M8030`, or begin
/// with `00080`.
pub open spec fn is_series8_hw(hw: Seq<u8>) -> bool {
    contains(hw, "M80".spec_bytes()) || contains(hw, "M8030".spec_bytes()) || starts_with(
        hw,
        "00080".spec_bytes(),
    )
}

/// The series that a hardware version stands for; series 7 is tested first.
pub open spec fn series_of(hw: Seq<u8>) -> UbloxSeries {
    if is_series7_hw(hw) {
        UbloxSeries::Series7
    } else if is_series8_hw(hw) {
        UbloxSeries::Series8
    } else {
        UbloxSeries::Unknown
    }
}

/// Index of the first entry at or after `from` that begins with `p`;
/// `list.len()` when there is none.
pub open spec fn first_with_prefix(list: Seq<Seq<u8>>, p: Seq<u8>, from: int) -> int
    decreases list.len() - from,
{
    if from < 0 || from >= list.len() {
        list.len() as int
    } else if starts_with(list[from], p) {
        from
    } else {
        first_with_prefix(list, p, from + 1)
    }
}

/// Display name of a series 8 receiver. The first extension that begins with
/// `MOD=` names the module directly. Without one, the first extension that
/// begins with `FWVER=` tells the variant by the firmware kind that follows:
/// `TIM`, `HPG` or `ADR`. Otherwise the name is generic.
pub open spec fn series8_name(extensions: Seq<Seq<u8>>) -> Seq<char> {
    let module = first_with_prefix(extensions, "MOD=".spec_bytes(), 0);
    let firmware = first_with_prefix(extensions, "FWVER=".spec_bytes(), 0);
    if module < extensions.len() {
        text_from(strip_prefix_all(extensions[module], "MOD=".spec_bytes()))
    } else if firmware < extensions.len() {
        let kind = strip_prefix_all(extensions[firmware], "FWVER=".spec_bytes());
        if starts_with(kind, "TIM".spec_bytes()) {
            "NEO-M8T"@
        } else if starts_with(kind, "HPG".spec_bytes()) {
            "NEO-M8P"@
        } else if starts_with(kind, "ADR".spec_bytes()) {
            "NEO-M8U"@
        } else {
            "u-blox M8"@
        }
    } else {
        "u-blox M8"@
    }
}

/// Display name of the receiver that sent `payload`.
pub open spec fn chip_name_of(payload: Seq<u8>) -> Seq<char> {
    match series_of(hw_version_bytes(payload)) {
        UbloxSeries::Series7 => "u-blox 7"@,
        UbloxSeries::Series8 => series8_name(extension_bytes(payload)),
        UbloxSeries::Unknown => "u-blox (HW: "@ + text_from(hw_version_bytes(payload)) + ")"@,
    }
}

/// The identity that a MON-VER payload describes: none when it is shorter
/// than 40 bytes. Text fields are read from the respective bytes: plainly
/// where these are valid UTF-8, as they are in every reply that holds ASCII
/// text.
pub open spec fn mon_ver_identity(payload: Seq<u8>) -> Option<ChipView> {
    if payload.len() < 40 {
        None
    } else {
        Some(
            ChipView {
                sw_version: text_from(sw_version_bytes(payload)),
                hw_version: text_from(hw_version_bytes(payload)),
                extensions: extension_bytes(payload).map_values(|b: Seq<u8>| text_from(b)),
                series: series_of(hw_version_bytes(payload)),
                chip_name: chip_name_of(payload),
            },
        )
    }
}

/// The byte strings behind a list of slices.
pub open spec fn slice_views(list: Seq<&[u8]>) -> Seq<Seq<u8>> {
    list.map_values(|s: &[u8]| s@)
}

fn find_with_prefix(list: &Vec<&[u8]>, pat: &[u8]) -> (at: usize)
    ensures
        at == first_with_prefix(slice_views(list@), pat@, 0),
        at <= list@.len(),
{
    let mut i: usize = 0;
    while i < list.len()
        invariant
            i <= list@.len(),
            first_with_prefix(slice_views(list@), pat@, 0) == first_with_prefix(
                slice_views(list@),
                pat@,
                i as int,
            ),
        decreases list@.len() - i,
    {
        if has_prefix(list[i], pat) {
            return i;
        }
        i += 1;
    }
    i
}

fn series8_chip_name(extensions: &Vec<&[u8]>) -> (name: String)
    ensures
        name@ == series8_name(slice_views(extensions@)),
{
    let module: usize = find_with_prefix(extensions, "MOD=".as_bytes());
    if module < extensions.len() {
        return decode_lossy(strip_leading(extensions[module], "MOD=".as_bytes()));
    }
    let firmware: usize = find_with_prefix(extensions, "FWVER=".as_bytes());
    if firmware < extensions.len() {
        let kind: &[u8] = strip_leading(extensions[firmware], "FWVER=".as_bytes());
        if has_prefix(kind, "TIM".as_bytes()) {
            String::from_str("NEO-M8T")
        } else if has_prefix(kind, "HPG".as_bytes()) {
            String::from_str("NEO-M8P")
        } else if has_prefix(kind, "ADR".as_bytes()) {
            String::from_str("NEO-M8U")
        } else {
            String::from_str("u-blox M8")
        }
    } else {
        String::from_str("u-blox M8")
    }
}

fn series_of_hw(hw: &[u8]) -> (series: UbloxSeries)
    ensures
        series == series_of(hw@),
{
    if has_infix(hw, "G70".as_bytes()) || has_prefix(hw, "00070".as_bytes()) {
        UbloxSeries::Series7
    } else if has_infix(hw, "M80".as_bytes()) || has_infix(hw, "M8030".as_bytes()) || has_prefix(
        hw,
        "00080".as_bytes(),
    ) {
        UbloxSeries::Series8
    } else {
        UbloxSeries::Unknown
    }
}

/// Parses the payload of a MON-VER reply. A payload of fewer than 40 bytes
/// carries no identity; any longer one does.
pub fn parse_mon_ver(payload: &[u8]) -> (r: Option<UbloxChipInfo>)
    ensures
        chip_view_of(r) == mon_ver_identity(payload@),
{
    if payload.len() < 40 {
        return None;
    }
    let sw: &[u8] = trim_trailing_nuls(slice_subrange(payload, 0, 30));
    let hw: &[u8] = trim_trailing_nuls(slice_subrange(payload, 30, 40));
    let mut blocks: Vec<&[u8]> = Vec::new();
    let mut extensions: Vec<String> = Vec::new();
    let mut offset: usize = 40;
    let ghost mut k: int = 0;
    while payload.len() - offset >= 30
        invariant
            40 <= offset <= payload@.len(),
            offset == 40 + 30 * k,
            0 <= k <= (payload@.len() - 40) / 30,
            slice_views(blocks@) == extensions_upto(payload@, k),
            extensions@.len() == blocks@.len(),
            forall|i: int|
                0 <= i < extensions@.len() ==> (#[trigger] extensions@[i])@ == text_from(
                    blocks@[i]@,
                ),
        decreases payload@.len() - offset,
    {
        let block: &[u8] = trim_trailing_nuls(slice_subrange(payload, offset, offset + 30));
        if block.len() > 0 {
            blocks.push(block);
            extensions.push(decode_lossy(block));
            proof {
                assert(slice_views(blocks@) =~= extensions_upto(payload@, k).push(block@));
            }
        }
        offset += 30;
        proof {
            k = k + 1;
        }
    }
    assert(k == (payload@.len() - 40) / 30);
    let series: UbloxSeries = series_of_hw(hw);
    let chip_name: String = match series {
        UbloxSeries::Series7 => String::from_str("u-blox 7"),
        UbloxSeries::Series8 => series8_chip_name(&blocks),
        UbloxSeries::Unknown => {
            let hw_text: String = decode_lossy(hw);
            let mut name: String = String::from_str("u-blox (HW: ");
            name.append(hw_text.as_str());
            name.append(")");
            name
        },
    };
    let info = UbloxChipInfo {
        sw_version: decode_lossy(sw),
        hw_version: decode_lossy(hw),
        extensions,
        series,
        chip_name,
    };
    proof {
        let want = extension_bytes(payload@).map_values(|b: Seq<u8>| text_from(b));
        assert(info@.extensions.len() == want.len());
        assert forall|i: int| 0 <= i < want.len() implies info@.extensions[i] == want[i] by {
            assert(slice_views(blocks@)[i] == blocks@[i]@);
        }
        assert(info@.extensions =~= want);
    }
    Some(info)
}

/// Where the two version fields hold ASCII, the version texts are the
/// characters of the fields without their trailing NULs: the field
/// `00080000` reads "00080000".
pub proof fn lemma_ascii_versions_read_plainly(payload: Seq<u8>)
    requires
        payload.len() >= 40,
        forall|i: int| 0 <= i < 40 ==> payload[i] < 0x80,
    ensures
        mon_ver_identity(payload).unwrap().sw_version == ascii_text(sw_version_bytes(payload)),
        mon_ver_identity(payload).unwrap().hw_version == ascii_text(hw_version_bytes(payload)),
{
    let sw = payload.subrange(0, 30);
    let hw = payload.subrange(30, 40);
    lemma_trim_nuls_is_prefix(sw);
    lemma_trim_nuls_is_prefix(hw);
    lemma_ascii_reads_plainly(trim_nuls(sw));
    lemma_ascii_reads_plainly(trim_nuls(hw));
}

/// A payload of at least 40 bytes always yields an identity, and its series
/// is known exactly when the hardware version bytes match the rule of series
/// 7 or the rule of series 8.
pub proof fn lemma_series_known_iff_hw_matches(payload: Seq<u8>)
    requires
        payload.len() >= 40,
    ensures
        mon_ver_identity(payload).is_some(),
        mon_ver_identity(payload).unwrap().series != UbloxSeries::Unknown <==> is_series7_hw(
            hw_version_bytes(payload),
        ) || is_series8_hw(hw_version_bytes(payload)),
        mon_ver_identity(payload).unwrap().series == UbloxSeries::Series7 <==> is_series7_hw(
            hw_version_bytes(payload),
        ),
        mon_ver_identity(payload).unwrap().series == UbloxSeries::Series8 <==> !is_series7_hw(
            hw_version_bytes(payload),
        ) && is_series8_hw(hw_version_bytes(payload)),
{
}

} // verus!
