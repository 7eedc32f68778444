use scout_gps::nmea::{Constellation, FixType, NmeaParser, SatelliteInfo};
use scout_gps::nmea_raw::{
    convert_satellites, observe, RawFix, RawGroup, RawMotion, RawSatellite,
};

fn bits(value: f32) -> Option<u32> {
    Some(value.to_bits())
}

fn raw(prn: u32, snr: f32) -> Option<RawSatellite> {
    Some(RawSatellite { prn, elevation: bits(45.0), azimuth: bits(180.5), snr: bits(snr) })
}

fn group(constellation: Constellation, total: u16, number: u16, prns: &[u32]) -> RawGroup {
    RawGroup {
        constellation,
        total,
        number,
        satellites: prns.iter().map(|p| raw(*p, 30.0)).collect(),
    }
}

fn prns(list: &[SatelliteInfo]) -> Vec<u32> {
    list.iter().map(|s| s.prn).collect()
}

#[test]
fn observation_is_built_from_decoded_fields() {
    let fix = RawFix {
        time: Some("12:00:01".to_string()),
        kind: Some(FixType::Rtk),
        latitude: Some(48.1173f64.to_bits()),
        longitude: Some((-11.516_666_7f64).to_bits()),
        altitude: bits(545.4),
        satellites: Some(9),
    };
    let motion = RawMotion {
        speed: bits(22.4),
        course: bits(84.4),
        hdop: bits(0.9),
        vdop: bits(f32::NAN),
        pdop: None,
    };
    let sats = vec![SatelliteInfo {
        prn: 5,
        elevation: None,
        azimuth: None,
        snr: Some(1),
        constellation: Constellation::Qzss,
    }];
    let data = observe(fix, motion, sats.clone());
    assert_eq!(data.latitude, Some(481_173_000));
    assert_eq!(data.longitude, Some(-115_166_667));
    assert_eq!(data.altitude, Some(545_400));
    assert_eq!(data.speed_knots, Some(22_400));
    assert_eq!(data.course, Some(84_400));
    assert_eq!(data.heading, None);
    assert_eq!(data.hdop, Some(900));
    assert_eq!(data.vdop, None);
    assert_eq!(data.pdop, None);
    assert_eq!(data.fix_quality, Some(4));
    assert_eq!(data.fix_type, Some(FixType::Rtk));
    assert_eq!(data.satellites, Some(9));
    assert_eq!(data.timestamp.as_deref(), Some("12:00:01"));
    assert_eq!(data.satellites_info, sats);
}

#[test]
fn empty_fields_give_an_empty_observation() {
    let fix = RawFix {
        time: None,
        kind: None,
        latitude: None,
        longitude: None,
        altitude: None,
        satellites: None,
    };
    let motion = RawMotion { speed: None, course: None, hdop: None, vdop: None, pdop: None };
    let data = observe(fix, motion, Vec::new());
    assert_eq!(data.latitude, None);
    assert_eq!(data.fix_quality, None);
    assert_eq!(data.fix_type, None);
    assert_eq!(data.timestamp, None);
    assert!(data.satellites_info.is_empty());
}

#[test]
fn fix_quality_is_the_code_of_the_kind() {
    let kinds = [
        (FixType::Invalid, 0),
        (FixType::Gps, 1),
        (FixType::DGps, 2),
        (FixType::Pps, 3),
        (FixType::Rtk, 4),
        (FixType::FloatRtk, 5),
        (FixType::Estimated, 6),
        (FixType::Manual, 7),
        (FixType::Simulation, 8),
    ];
    for (kind, code) in kinds {
        let fix = RawFix {
            time: None,
            kind: Some(kind),
            latitude: None,
            longitude: None,
            altitude: None,
            satellites: None,
        };
        let motion = RawMotion { speed: None, course: None, hdop: None, vdop: None, pdop: None };
        let data = observe(fix, motion, Vec::new());
        assert_eq!(data.fix_quality, Some(code));
        assert_eq!(data.fix_type, Some(kind));
    }
}

#[test]
fn empty_slots_are_left_out() {
    let slots = vec![None, raw(3, 41.0), None, raw(9, 0.0)];
    let list = convert_satellites(&slots, Constellation::Galileo);
    assert_eq!(
        list,
        vec![
            SatelliteInfo {
                prn: 3,
                elevation: Some(45_000),
                azimuth: Some(180_500),
                snr: Some(41_000),
                constellation: Constellation::Galileo,
            },
            SatelliteInfo {
                prn: 9,
                elevation: Some(45_000),
                azimuth: Some(180_500),
                snr: Some(0),
                constellation: Constellation::Galileo,
            },
        ]
    );
    assert!(convert_satellites(&Vec::new(), Constellation::Gps).is_empty());
}

#[test]
fn groups_are_assembled_per_constellation() {
    let mut parser = NmeaParser::new();
    assert!(parser.assemble(&group(Constellation::Gps, 2, 1, &[1, 2, 3, 4])).is_empty());
    assert_eq!(prns(&parser.assemble(&group(Constellation::Glonass, 1, 1, &[65]))), vec![65]);
    assert_eq!(prns(&parser.assemble(&group(Constellation::Gps, 2, 2, &[5]))), vec![65, 1, 2, 3, 4, 5]);
    assert_eq!(prns(&parser.assemble(&group(Constellation::BeiDou, 1, 1, &[201]))), vec![201, 65, 1, 2, 3, 4, 5]);
    assert_eq!(prns(&parser.assemble(&group(Constellation::Gps, 1, 1, &[]))), vec![201, 65]);
}

#[test]
fn numbering_faults_discard_the_group() {
    let mut parser = NmeaParser::new();
    parser.assemble(&group(Constellation::Gps, 1, 1, &[7]));
    assert_eq!(prns(&parser.assemble(&group(Constellation::Gps, 3, 2, &[8]))), vec![7]);
    assert_eq!(prns(&parser.assemble(&group(Constellation::Gps, 3, 3, &[9]))), vec![7]);
    assert_eq!(prns(&parser.assemble(&group(Constellation::Gps, 0, 1, &[10]))), vec![7]);
    assert_eq!(prns(&parser.assemble(&group(Constellation::Gps, 2, 0, &[11]))), vec![7]);
    parser.assemble(&group(Constellation::Gps, 3, 1, &[1]));
    parser.assemble(&group(Constellation::Gps, 3, 2, &[2]));
    assert_eq!(prns(&parser.assemble(&group(Constellation::Gps, 3, 2, &[2]))), vec![7]);
    assert_eq!(prns(&parser.assemble(&group(Constellation::Gps, 3, 3, &[3]))), vec![7]);
    parser.assemble(&group(Constellation::Gps, 2, 1, &[1]));
    assert_eq!(prns(&parser.assemble(&group(Constellation::Gps, 2, 2, &[2]))), vec![1, 2]);
}

#[test]
fn last_sentence_number_does_not_overflow() {
    let mut parser = NmeaParser::new();
    parser.assemble(&group(Constellation::Gps, u16::MAX, 1, &[1]));
    assert_eq!(parser.gps.next, 2);
    parser.gps.next = u16::MAX;
    assert_eq!(prns(&parser.assemble(&group(Constellation::Gps, u16::MAX, u16::MAX, &[2]))), vec![1, 2]);
    assert_eq!(parser.gps.next, 0);
}
