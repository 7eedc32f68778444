use scout_gps::stream::{StreamItem, StreamSplitter, PENDING_CAPACITY};
use scout_gps::ubx_config::{build_cfg_rate_1hz, build_mon_ver_poll, build_ubx_message};

fn shown(items: &[StreamItem]) -> Vec<String> {
    items
        .iter()
        .map(|item| match item {
            StreamItem::Sentence(text) => format!("text:{}", text),
            StreamItem::Frame(frame) => {
                format!("ubx:{:02X}-{:02X}:{}", frame.class, frame.id, frame.payload.len())
            }
        })
        .collect()
}

#[test]
fn lines_are_cut_at_line_feeds() {
    let mut splitter = StreamSplitter::new();
    let items = splitter.push(b"$GPGGA,1\r\n$GPRMC,2\n\r\n\n$GPV");
    assert_eq!(shown(&items), vec!["text:$GPGGA,1", "text:$GPRMC,2"]);
    assert_eq!(splitter.pending, b"$GPV");
    let items = splitter.push(b"TG,3\r");
    assert!(items.is_empty());
    let items = splitter.push(b"\n");
    assert_eq!(shown(&items), vec!["text:$GPVTG,3"]);
    assert!(splitter.pending.is_empty());
}

#[test]
fn frames_and_lines_are_told_apart() {
    let mut stream = b"$GPGGA,1\r\n".to_vec();
    stream.extend_from_slice(&build_cfg_rate_1hz());
    stream.extend_from_slice(b"$GPRMC,2\r\n");
    stream.extend_from_slice(&build_mon_ver_poll());
    stream.extend_from_slice(&build_ubx_message(0x0A, 0x04, &[0x0A; 40]));
    let mut splitter = StreamSplitter::new();
    let items = splitter.push(&stream);
    assert_eq!(
        shown(&items),
        vec!["text:$GPGGA,1", "ubx:06-08:6", "text:$GPRMC,2", "ubx:0A-04:0", "ubx:0A-04:40"]
    );
    assert!(splitter.pending.is_empty());
}

#[test]
fn items_may_arrive_in_any_pieces() {
    let mut stream = b"$GPGGA,1\r\n".to_vec();
    stream.extend_from_slice(&build_ubx_message(0x0A, 0x04, &[0x0A, 0x0D, 0xB5, 0x62, 0x24]));
    stream.extend_from_slice(b"$GPRMC,2\r\n");
    for size in 1..stream.len() {
        let mut splitter = StreamSplitter::new();
        let mut all = Vec::new();
        for piece in stream.chunks(size) {
            all.extend(shown(&splitter.push(piece)));
        }
        assert_eq!(all, vec!["text:$GPGGA,1", "ubx:0A-04:5", "text:$GPRMC,2"], "size {}", size);
        assert!(splitter.pending.is_empty());
    }
}

#[test]
fn bytes_before_a_sync_pair_are_dropped() {
    let mut stream = b"noise without end".to_vec();
    stream.extend_from_slice(&build_mon_ver_poll());
    let mut splitter = StreamSplitter::new();
    assert_eq!(shown(&splitter.push(&stream)), vec!["ubx:0A-04:0"]);
    assert!(splitter.pending.is_empty());
}

#[test]
fn frame_with_wrong_checksum_is_skipped() {
    let mut damaged = build_cfg_rate_1hz();
    damaged[7] ^= 0xFF;
    let mut stream = damaged.clone();
    stream.extend_from_slice(b"\n$GPGGA,1\n");
    let mut splitter = StreamSplitter::new();
    let items = splitter.push(&stream);
    assert_eq!(shown(&items).last().unwrap(), "text:$GPGGA,1");
    assert!(items.iter().all(|item| matches!(item, StreamItem::Sentence(_))));
    assert!(splitter.pending.is_empty());
}

#[test]
fn incomplete_frame_waits() {
    let frame = build_ubx_message(0x0A, 0x04, &[7u8; 100]);
    let mut splitter = StreamSplitter::new();
    assert!(splitter.push(&frame[..1]).is_empty());
    assert_eq!(splitter.pending, vec![0xB5]);
    assert!(splitter.push(&frame[1..50]).is_empty());
    assert_eq!(splitter.pending.len(), 50);
    assert_eq!(shown(&splitter.push(&frame[50..])), vec!["ubx:0A-04:100"]);
    assert!(splitter.pending.is_empty());
}

#[test]
fn what_piles_up_beyond_the_capacity_is_cleared() {
    let mut splitter = StreamSplitter::new();
    assert!(splitter.push(&vec![b'x'; PENDING_CAPACITY]).is_empty());
    assert_eq!(splitter.pending.len(), PENDING_CAPACITY);
    assert!(splitter.push(b"y").is_empty());
    assert!(splitter.pending.is_empty());
    assert_eq!(shown(&splitter.push(b"$GPGGA,1\n")), vec!["text:$GPGGA,1"]);
}

#[test]
fn text_that_is_not_utf8_is_replaced() {
    let mut splitter = StreamSplitter::new();
    let items = splitter.push(&[b'$', 0xFF, b'A', b'\n']);
    assert_eq!(shown(&items), vec!["text:$\u{FFFD}A"]);
}
