use scout_gps::nmea::{
    Constellation, FixType, GpsData, NmeaError, NmeaParser, SatelliteInfo, GROUP_CAPACITY,
};
use scout_gps::sentence::{check_framing, check_sentence, seal, SentenceFault};

const GGA: &str = "$GPGGA,092750.000,5321.6802,N,00630.3372,W,1,8,1.03,61.7,M,55.2,M,,*76";
const RMC: &str = "$GPRMC,225446,A,4916.45,N,12311.12,W,000.5,054.7,191194,020.3,E*68";

fn degrees(value: i64) -> f64 {
    value as f64 / 1e7
}

#[test]
fn test_parse_gga() {
    let mut parser = NmeaParser::new();
    let sentence = "$GPGGA,092750.000,5321.6802,N,00630.3372,W,1,8,1.03,61.7,M,55.2,M,,*76";
    let result = parser.parse_sentence(sentence);
    assert!(result.is_ok(), "Failed to parse GGA: {:?}", result.err());
    let gps = result.unwrap();
    assert!(gps.latitude.is_some(), "Latitude should be parsed");
    assert!(gps.longitude.is_some(), "Longitude should be parsed");
    let lat = degrees(gps.latitude.unwrap());
    let lon = degrees(gps.longitude.unwrap());
    assert!((lat - 53.36).abs() < 0.1, "Latitude should be ~53.36, got {}", lat);
    assert!((lon - (-6.50)).abs() < 0.1, "Longitude should be ~-6.50, got {}", lon);
}

#[test]
fn test_parse_rmc() {
    let mut parser = NmeaParser::new();
    let sentence = "$GPRMC,225446,A,4916.45,N,12311.12,W,000.5,054.7,191194,020.3,E*68";
    let result = parser.parse_sentence(sentence);
    assert!(result.is_ok(), "Failed to parse RMC: {:?}", result.err());
    let gps = result.unwrap();
    assert!(gps.speed_knots.is_some(), "Speed should be parsed");
    assert!(gps.course.is_some(), "Course should be parsed");
}

#[test]
fn gga_fields_are_exact() {
    let mut parser = NmeaParser::new();
    let gps = parser.parse_sentence(GGA).unwrap();
    assert_eq!(gps.latitude, Some(533_613_367));
    assert_eq!(gps.longitude, Some(-65_056_200));
    assert_eq!(gps.fix_quality, Some(1));
    assert_eq!(gps.fix_type, Some(FixType::Gps));
    assert_eq!(gps.satellites, Some(8));
    assert_eq!(gps.hdop, Some(1030));
    assert_eq!(gps.altitude, Some(61_700));
    assert_eq!(gps.timestamp.as_deref(), Some("09:27:50"));
    assert_eq!(gps.speed_knots, None);
    assert_eq!(gps.course, None);
    assert_eq!(gps.heading, None);
    assert_eq!(gps.vdop, None);
    assert_eq!(gps.pdop, None);
    assert!(gps.satellites_info.is_empty());
}

#[test]
fn rmc_fields_are_exact() {
    let mut parser = NmeaParser::new();
    let gps = parser.parse_sentence(RMC).unwrap();
    assert_eq!(gps.speed_knots, Some(500));
    assert_eq!(gps.course, Some(54_700));
    assert_eq!(gps.latitude, Some(492_741_667));
    assert_eq!(gps.longitude, Some(-1_231_853_333));
    assert_eq!(gps.fix_quality, Some(1));
    assert_eq!(gps.hdop, None);
    assert_eq!(gps.altitude, None);
    assert_eq!(gps.satellites, None);
}

#[test]
fn partial_holds_only_what_the_sentence_carries() {
    let mut parser = NmeaParser::new();
    parser.parse_sentence(GGA).unwrap();
    let rmc = parser.parse_sentence(RMC).unwrap();
    assert_eq!(rmc.hdop, None);
    assert_eq!(rmc.altitude, None);
    assert_eq!(rmc.satellites, None);
}

#[test]
fn gsa_carries_the_three_dops() {
    let mut parser = NmeaParser::new();
    let gps = parser
        .parse_sentence("$GPGSA,A,3,04,05,,09,12,,,24,,,,,2.5,1.3,2.1*39")
        .unwrap();
    assert_eq!(gps.pdop, Some(2500));
    assert_eq!(gps.hdop, Some(1300));
    assert_eq!(gps.vdop, Some(2100));
    assert_eq!(gps.latitude, None);
}

#[test]
fn vtg_carries_course_and_speed() {
    let mut parser = NmeaParser::new();
    let gps = parser.parse_sentence("$GPVTG,054.7,T,034.4,M,005.5,N,010.2,K").unwrap();
    assert_eq!(gps.course, Some(54_700));
    assert_eq!(gps.speed_knots, Some(5500));
}

#[test]
fn gll_carries_position() {
    let mut parser = NmeaParser::new();
    let gps = parser.parse_sentence("$GPGLL,4916.45,N,12311.12,W,225444,A,A").unwrap();
    assert_eq!(gps.latitude, Some(492_741_667));
    assert_eq!(gps.longitude, Some(-1_231_853_333));
    assert_eq!(gps.timestamp.as_deref(), Some("22:54:44"));
}

#[test]
fn sentence_without_checksum_is_accepted() {
    let mut parser = NmeaParser::new();
    let bare = GGA.strip_suffix("*76").unwrap();
    let with = parser.parse_sentence(GGA).unwrap();
    let without = parser.parse_sentence(bare).unwrap();
    assert_eq!(without.latitude, with.latitude);
    assert_eq!(without.longitude, with.longitude);
    assert_eq!(without.hdop, with.hdop);
    assert_eq!(without.altitude, with.altitude);
    assert_eq!(without.satellites, with.satellites);
}

fn parse_error(sentence: &str) -> String {
    match NmeaParser::new().parse_sentence(sentence) {
        Err(NmeaError::Parse(reason)) => reason,
        other => panic!("expected a parse error, got {:?}", other),
    }
}

#[test]
fn wrong_checksum_is_rejected() {
    let damaged = GGA.replace("*76", "*77");
    assert_eq!(parse_error(&damaged), "checksum mismatch");
}

#[test]
fn malformed_checksum_is_rejected() {
    assert_eq!(
        parse_error("$GPGGA,092750.000,5321.6802,N,00630.3372,W,1,8,1.03,61.7,M,55.2,M,,*7"),
        "checksum is not two trailing hexadecimal digits"
    );
    assert_eq!(
        parse_error("$GPGGA,092750.000,5321.6802,N,00630.3372,W,1,8,1.03,61.7,M,55.2,M,,*7G"),
        "checksum is not two trailing hexadecimal digits"
    );
    assert_eq!(
        parse_error("$GPGGA,092750.000,5321.6802,N,00630.3372,W,1,8,1.03,61.7,M,55.2,M,,*76 "),
        "checksum is not two trailing hexadecimal digits"
    );
}

#[test]
fn sentence_must_begin_with_dollar() {
    assert_eq!(parse_error(&GGA[1..]), "sentence does not begin with '$'");
    assert_eq!(parse_error(""), "sentence does not begin with '$'");
}

#[test]
fn non_ascii_sentence_is_rejected() {
    assert_eq!(parse_error("$GPGGA,\u{e9}"), "sentence holds non-ASCII characters");
}

#[test]
fn other_sentence_kinds_are_rejected() {
    assert_eq!(parse_error("$GPZDA,160012.71,11,03,2004,-1,00*7D"), "unsupported sentence kind");
    assert_eq!(parse_error("$GP"), "unsupported sentence kind");
}

#[test]
fn what_the_decoder_rejects_comes_back_as_parse_error() {
    let reason = parse_error("$GPGGA,not,a,fix");
    assert!(!reason.is_empty());
    let mut parser = NmeaParser::new();
    assert!(parser.parse_sentence("$GNGSV,1,1,01,03,03,111,00").is_err());
}

#[test]
fn error_text() {
    assert_eq!(NmeaError::Parse("x".to_string()).to_string(), "Parse error: x");
    assert_eq!(NmeaError::SerialPort("y".to_string()).to_string(), "Serial port error: y");
    assert_eq!(NmeaError::NoFix.to_string(), "No GPS fix");
}

const GSV_1: &str = "$GPGSV,3,1,11,03,03,111,00,04,15,270,00,06,01,010,00,13,06,292,00*74";
const GSV_2: &str = "$GPGSV,3,2,11,14,25,170,00,16,57,208,39,18,67,296,40,19,40,246,00*74";
const GSV_3: &str = "$GPGSV,3,3,11,22,42,067,42,24,14,311,43,27,05,244,00,,,,*4D";

#[test]
fn gsv_group_is_reassembled() {
    let mut parser = NmeaParser::new();
    assert!(parser.parse_sentence(GSV_1).unwrap().satellites_info.is_empty());
    assert!(parser.parse_sentence(GSV_2).unwrap().satellites_info.is_empty());
    let done = parser.parse_sentence(GSV_3).unwrap();
    let prns: Vec<u32> = done.satellites_info.iter().map(|s| s.prn).collect();
    assert_eq!(prns, vec![3, 4, 6, 13, 14, 16, 18, 19, 22, 24, 27]);
    assert!(done.satellites_info.iter().all(|s| s.constellation == Constellation::Gps));
    let sat16 = done.satellites_info[5];
    assert_eq!(
        sat16,
        SatelliteInfo {
            prn: 16,
            elevation: Some(57_000),
            azimuth: Some(208_000),
            snr: Some(39_000),
            constellation: Constellation::Gps,
        }
    );
}

#[test]
fn complete_group_stays_while_the_next_comes_in() {
    let mut parser = NmeaParser::new();
    parser.parse_sentence(GSV_1).unwrap();
    parser.parse_sentence(GSV_2).unwrap();
    parser.parse_sentence(GSV_3).unwrap();
    let during = parser.parse_sentence(GSV_1).unwrap();
    assert_eq!(during.satellites_info.len(), 11);
    assert_eq!(parser.satellites().len(), 11);
}

#[test]
fn gsv_out_of_order_discards_the_group() {
    let mut parser = NmeaParser::new();
    parser.parse_sentence(GSV_1).unwrap();
    assert!(parser.parse_sentence(GSV_3).unwrap().satellites_info.is_empty());
    assert!(parser.parse_sentence(GSV_2).unwrap().satellites_info.is_empty());
    parser.parse_sentence(GSV_1).unwrap();
    parser.parse_sentence(GSV_2).unwrap();
    assert_eq!(parser.parse_sentence(GSV_3).unwrap().satellites_info.len(), 11);
}

#[test]
fn constellations_are_kept_apart() {
    let mut parser = NmeaParser::new();
    parser.parse_sentence("$GPGSV,1,1,02,03,03,111,20,04,15,270,30").unwrap();
    let both = parser.parse_sentence("$GLGSV,1,1,01,70,40,100,35").unwrap();
    let seen: Vec<(Constellation, u32)> =
        both.satellites_info.iter().map(|s| (s.constellation, s.prn)).collect();
    assert_eq!(
        seen,
        vec![(Constellation::Glonass, 70), (Constellation::Gps, 3), (Constellation::Gps, 4)]
    );
    let galileo = parser.parse_sentence("$GAGSV,1,1,01,11,40,100,35").unwrap();
    assert_eq!(galileo.satellites_info.len(), 4);
    assert_eq!(galileo.satellites_info[3].constellation, Constellation::Galileo);
}

#[test]
fn every_constellation_is_told_by_its_talker() {
    let talkers = [
        ("GP", Constellation::Gps),
        ("GL", Constellation::Glonass),
        ("GA", Constellation::Galileo),
        ("BD", Constellation::BeiDou),
        ("GB", Constellation::BeiDou),
        ("GQ", Constellation::Qzss),
        ("GI", Constellation::NavIc),
    ];
    for (talker, constellation) in talkers {
        let mut parser = NmeaParser::new();
        let sentence = format!("${}GSV,1,1,01,07,40,100,35", talker);
        let data = parser.parse_sentence(&sentence).unwrap();
        assert_eq!(data.satellites_info.len(), 1, "{}", talker);
        assert_eq!(data.satellites_info[0].constellation, constellation, "{}", talker);
        assert_eq!(data.satellites_info[0].prn, 7);
    }
}

#[test]
fn fix_quality_follows_the_gga_code() {
    let kinds = [
        (0, FixType::Invalid),
        (1, FixType::Gps),
        (2, FixType::DGps),
        (3, FixType::Pps),
        (4, FixType::Rtk),
        (5, FixType::FloatRtk),
        (6, FixType::Estimated),
        (7, FixType::Manual),
        (8, FixType::Simulation),
    ];
    for (code, kind) in kinds {
        let mut parser = NmeaParser::new();
        let sentence =
            format!("$GPGGA,092750.000,5321.6802,N,00630.3372,W,{},8,1.03,61.7,M,55.2,M,,", code);
        let data = parser.parse_sentence(&sentence).unwrap();
        assert_eq!(data.fix_quality, Some(code));
        assert_eq!(data.fix_type, Some(kind));
    }
}

#[test]
fn satellite_without_signal_has_no_snr() {
    let mut parser = NmeaParser::new();
    let data = parser.parse_sentence("$GLGSV,1,1,02,88,07,028,,70,,,21").unwrap();
    assert_eq!(data.satellites_info.len(), 2);
    assert_eq!(data.satellites_info[0].snr, None);
    assert_eq!(data.satellites_info[0].elevation, Some(7_000));
    assert_eq!(data.satellites_info[1].elevation, None);
    assert_eq!(data.satellites_info[1].azimuth, None);
    assert_eq!(data.satellites_info[1].snr, Some(21_000));
}

#[test]
fn reset_forgets_the_satellites() {
    let mut parser = NmeaParser::new();
    parser.parse_sentence("$GPGSV,1,1,02,03,03,111,20,04,15,270,30").unwrap();
    assert_eq!(parser.satellites().len(), 2);
    parser.reset();
    assert!(parser.satellites().is_empty());
    assert!(parser.parse_sentence(GGA).unwrap().satellites_info.is_empty());
}

#[test]
fn group_is_cut_off_at_capacity() {
    let mut parser = NmeaParser::new();
    let total = 20;
    let mut last = Vec::new();
    for number in 1..=total {
        let base = (number - 1) * 4 + 1;
        let sentence = format!(
            "$GPGSV,{},{},80,{},10,100,30,{},10,100,30,{},10,100,30,{},10,100,30",
            total,
            number,
            base,
            base + 1,
            base + 2,
            base + 3
        );
        last = parser.parse_sentence(&sentence).unwrap().satellites_info;
    }
    assert_eq!(last.len(), GROUP_CAPACITY);
    assert_eq!(last[63].prn, 64);
}

#[test]
fn parse_batch_merges_all_lines() {
    let mut parser = NmeaParser::new();
    let data = format!("  {}\r\n\r\nnot a sentence\n{}\n{}", GGA, RMC, "   ");
    let latest = parser.parse_batch(&data);
    assert_eq!(latest.latitude, Some(492_741_667));
    assert_eq!(latest.hdop, Some(1030));
    assert_eq!(latest.altitude, Some(61_700));
    assert_eq!(latest.speed_knots, Some(500));
    assert_eq!(latest.timestamp.as_deref(), Some("22:54:46"));
}

#[test]
fn parse_batch_of_nothing_is_empty() {
    let mut parser = NmeaParser::new();
    let latest = parser.parse_batch("");
    assert_eq!(latest.latitude, None);
    assert!(latest.satellites_info.is_empty());
}

fn sample(lat: Option<i64>, hdop: Option<i64>, sats: Vec<SatelliteInfo>) -> GpsData {
    let mut data = GpsData::new();
    data.latitude = lat;
    data.hdop = hdop;
    data.satellites_info = sats;
    data
}

fn sat(prn: u32) -> SatelliteInfo {
    SatelliteInfo {
        prn,
        elevation: None,
        azimuth: None,
        snr: Some(30_000),
        constellation: Constellation::Gps,
    }
}

#[test]
fn merge_adopts_what_is_present() {
    let mut cumulative = sample(Some(1), Some(2000), vec![sat(1), sat(2)]);
    cumulative.timestamp = Some("10:00:00".to_string());
    let partial = sample(Some(5), None, vec![]);
    cumulative.merge(&partial);
    assert_eq!(cumulative.latitude, Some(5));
    assert_eq!(cumulative.hdop, Some(2000));
    assert_eq!(cumulative.timestamp.as_deref(), Some("10:00:00"));
    assert_eq!(cumulative.satellites_info.len(), 2);
}

#[test]
fn merge_replaces_satellites_wholesale() {
    let mut cumulative = sample(None, None, vec![sat(1), sat(2), sat(3)]);
    cumulative.merge(&sample(None, None, vec![sat(9)]));
    assert_eq!(cumulative.satellites_info, vec![sat(9)]);
}

#[test]
fn merge_twice_equals_merge_once() {
    let mut once = sample(Some(1), Some(2000), vec![sat(1)]);
    let mut twice = once.clone();
    let mut partial = sample(Some(7), None, vec![sat(4), sat(5)]);
    partial.fix_type = Some(FixType::DGps);
    partial.timestamp = Some("11:11:11".to_string());
    once.merge(&partial);
    twice.merge(&partial);
    twice.merge(&partial);
    assert_eq!(format!("{:?}", once), format!("{:?}", twice));
}

#[test]
fn fix_type_codes_and_labels() {
    let all = [
        (FixType::Invalid, 0, "No Fix"),
        (FixType::Gps, 1, "GPS"),
        (FixType::DGps, 2, "DGPS"),
        (FixType::Pps, 3, "PPS"),
        (FixType::Rtk, 4, "RTK"),
        (FixType::FloatRtk, 5, "Float RTK"),
        (FixType::Estimated, 6, "Estimated"),
        (FixType::Manual, 7, "Manual"),
        (FixType::Simulation, 8, "Simulation"),
    ];
    for (kind, code, label) in all {
        assert_eq!(kind.quality(), code);
        assert_eq!(kind.label(), label);
    }
}

#[test]
fn constellation_names() {
    assert_eq!(Constellation::Gps.as_str(), "GPS");
    assert_eq!(Constellation::Glonass.as_str(), "GLONASS");
    assert_eq!(Constellation::Galileo.as_str(), "Galileo");
    assert_eq!(Constellation::BeiDou.as_str(), "BeiDou");
    assert_eq!(Constellation::Qzss.as_str(), "QZSS");
    assert_eq!(Constellation::NavIc.as_str(), "NavIC");
}

#[test]
fn framing_faults() {
    assert_eq!(check_sentence(GGA), None);
    assert_eq!(check_sentence(RMC), None);
    assert_eq!(check_sentence("$GPGGA"), None);
    assert_eq!(check_sentence("$GPGG"), Some(SentenceFault::Unsupported));
    assert_eq!(check_sentence("GPGGA,1"), Some(SentenceFault::NoDollar));
    assert_eq!(check_sentence("$GPGGA,1*"), Some(SentenceFault::MalformedChecksum));
    assert_eq!(check_sentence("$GPGGA,1*00"), Some(SentenceFault::ChecksumMismatch));
    assert_eq!(check_sentence("$GPGGA,\u{fc}"), Some(SentenceFault::NotAscii));
    assert_eq!(check_framing(&[0x24, 0xFF]), Some(SentenceFault::NotAscii));
    assert_eq!(check_framing(b"$GPRMC,x*2b"), check_framing(b"$GPRMC,x*2B"));
}

#[test]
fn seal_appends_the_checksum() {
    assert_eq!(seal(GGA.strip_suffix("*76").unwrap()), GGA);
    assert_eq!(seal(RMC.strip_suffix("*68").unwrap()), RMC);
    assert_eq!(seal(GGA), GGA);
    assert_eq!(seal("$"), "$*00");
    assert_eq!(seal(""), "");
    assert_eq!(seal("$GP\u{e9}"), "$GP\u{e9}");
}
