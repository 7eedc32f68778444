use scout_gps::ubx_config::{
    build_cfg_gnss_series7_marine, build_cfg_gnss_series8_marine, build_cfg_msg,
    build_cfg_nav5_sea, build_cfg_nmea_extended, build_cfg_rate_1hz, build_cfg_save_all,
    build_cfg_sbas_enable, build_mon_ver_poll, build_nmea_message_config, build_ubx_message,
    get_optimization_commands, parse_mon_ver, profile_name, ubx_checksum, ubx_decode, UbloxSeries,
    UbxError,
};

#[test]
fn test_ubx_checksum() {
    let data = [0x0A, 0x04, 0x00, 0x00];
    let (ck_a, ck_b) = ubx_checksum(&data);
    assert_eq!(ck_a, 0x0E);
    assert_eq!(ck_b, 0x34);
}

#[test]
fn test_build_ubx_message_mon_ver_poll() {
    let msg = build_mon_ver_poll();
    assert_eq!(msg.len(), 8);
    assert_eq!(msg[0], 0xB5);
    assert_eq!(msg[1], 0x62);
    assert_eq!(msg[2], 0x0A);
    assert_eq!(msg[3], 0x04);
    assert_eq!(msg[4], 0x00);
    assert_eq!(msg[5], 0x00);
    assert_eq!(msg[6], 0x0E);
    assert_eq!(msg[7], 0x34);
}

#[test]
fn test_parse_mon_ver_series8() {
    let mut payload = Vec::new();
    let sw = b"ROM CORE 3.01 (107888)\0\0\0\0\0\0\0\0";
    payload.extend_from_slice(sw);
    let hw = b"00080000\0\0";
    payload.extend_from_slice(hw);
    let ext1 = b"FWVER=SPG 3.01\0\0\0\0\0\0\0\0\0\0\0\0\0\0\0\0";
    payload.extend_from_slice(ext1);
    let ext2 = b"PROTVER=18.00\0\0\0\0\0\0\0\0\0\0\0\0\0\0\0\0\0";
    payload.extend_from_slice(ext2);

    let info = parse_mon_ver(&payload).unwrap();
    assert_eq!(info.series, UbloxSeries::Series8);
    assert_eq!(info.chip_name, "u-blox M8");
    assert!(info.sw_version.contains("ROM CORE 3.01"));
    assert_eq!(info.extensions.len(), 2);
}

#[test]
fn test_parse_mon_ver_series7() {
    let mut payload = Vec::new();
    let sw = b"1.00 (59842)\0\0\0\0\0\0\0\0\0\0\0\0\0\0\0\0\0\0";
    payload.extend_from_slice(sw);
    let hw = b"00070000\0\0";
    payload.extend_from_slice(hw);

    let info = parse_mon_ver(&payload).unwrap();
    assert_eq!(info.series, UbloxSeries::Series7);
    assert_eq!(info.chip_name, "u-blox 7");
}

#[test]
fn test_parse_mon_ver_too_short() {
    assert!(parse_mon_ver(&[0u8; 30]).is_none());
}

#[test]
fn test_optimization_commands_series7() {
    let cmds = get_optimization_commands(&UbloxSeries::Series7);
    assert!(cmds.len() >= 10);
    let gnss_cmd = &cmds[0];
    assert_eq!(gnss_cmd[2], 0x06);
    assert_eq!(gnss_cmd[3], 0x3E);
    assert_eq!(gnss_cmd[9], 0x02);
}

#[test]
fn test_optimization_commands_series8() {
    let cmds = get_optimization_commands(&UbloxSeries::Series8);
    let gnss_cmd = &cmds[0];
    assert_eq!(gnss_cmd[2], 0x06);
    assert_eq!(gnss_cmd[3], 0x3E);
    assert_eq!(gnss_cmd[9], 0x04);
}

#[test]
fn test_cfg_nav5_sea_dynmodel() {
    let msg = build_cfg_nav5_sea();
    assert_eq!(msg[2], 0x06);
    assert_eq!(msg[3], 0x24);
    assert_eq!(msg[8], 0x05);
}

#[test]
fn test_cfg_rate_1hz() {
    let msg = build_cfg_rate_1hz();
    assert_eq!(msg[2], 0x06);
    assert_eq!(msg[3], 0x08);
    assert_eq!(msg[6], 0xE8);
    assert_eq!(msg[7], 0x03);
}

#[test]
fn test_cfg_save_all() {
    let msg = build_cfg_save_all();
    assert_eq!(msg[2], 0x06);
    assert_eq!(msg[3], 0x09);
    assert_eq!(msg[18], 0x17);
}

#[test]
fn test_last_command_is_save() {
    let cmds = get_optimization_commands(&UbloxSeries::Series8);
    let last = cmds.last().unwrap();
    assert_eq!(last[2], 0x06);
    assert_eq!(last[3], 0x09);
}

#[test]
fn checksum_of_empty_input_is_zero() {
    assert_eq!(ubx_checksum(&[]), (0, 0));
}

#[test]
fn checksum_wraps_at_256() {
    assert_eq!(ubx_checksum(&[0xFF, 0x02]), (0x01, 0x00));
}

#[test]
fn message_layout_is_exact() {
    let msg = build_ubx_message(0x06, 0x08, &[0xE8, 0x03, 0x01, 0x00, 0x01, 0x00]);
    assert_eq!(
        msg,
        vec![0xB5, 0x62, 0x06, 0x08, 0x06, 0x00, 0xE8, 0x03, 0x01, 0x00, 0x01, 0x00, 0x01, 0x39]
    );
}

#[test]
fn length_field_is_little_endian() {
    let payload = vec![0u8; 0x0123];
    let msg = build_ubx_message(0x01, 0x02, &payload);
    assert_eq!(msg.len(), 0x0123 + 8);
    assert_eq!(msg[4], 0x23);
    assert_eq!(msg[5], 0x01);
}

#[test]
fn decode_returns_what_was_encoded() {
    let payload: Vec<u8> = (0u8..=200).collect();
    let msg = build_ubx_message(0x0A, 0x04, &payload);
    let (frame, end) = ubx_decode(&msg).unwrap();
    assert_eq!(frame.class, 0x0A);
    assert_eq!(frame.id, 0x04);
    assert_eq!(frame.payload, payload);
    assert_eq!(end, msg.len());
}

#[test]
fn decode_of_empty_payload_round_trips() {
    let msg = build_ubx_message(0x0A, 0x04, &[]);
    let (frame, end) = ubx_decode(&msg).unwrap();
    assert_eq!((frame.class, frame.id), (0x0A, 0x04));
    assert!(frame.payload.is_empty());
    assert_eq!(end, 8);
}

#[test]
fn decode_skips_bytes_before_sync() {
    let mut stream = b"$GPGGA,1,2*00\r\n".to_vec();
    let skipped = stream.len();
    stream.extend_from_slice(&build_cfg_rate_1hz());
    stream.extend_from_slice(b"$GPRMC");
    let (frame, end) = ubx_decode(&stream).unwrap();
    assert_eq!(frame.class, 0x06);
    assert_eq!(frame.id, 0x08);
    assert_eq!(frame.payload, vec![0xE8, 0x03, 0x01, 0x00, 0x01, 0x00]);
    assert_eq!(end, skipped + 14);
}

#[test]
fn decode_without_sync_reports_no_sync() {
    assert_eq!(ubx_decode(b"$GPGGA,no binary here").unwrap_err(), UbxError::NoSync);
    assert_eq!(ubx_decode(&[]).unwrap_err(), UbxError::NoSync);
    assert_eq!(ubx_decode(&[0xB5]).unwrap_err(), UbxError::NoSync);
}

#[test]
fn decode_of_cut_frame_reports_truncated() {
    let msg = build_cfg_nav5_sea();
    let cut = &msg[..msg.len() - 1];
    assert_eq!(ubx_decode(cut).unwrap_err(), UbxError::Truncated { start: 0 });
    assert_eq!(ubx_decode(&msg[..4]).unwrap_err(), UbxError::Truncated { start: 0 });
    let mut shifted = vec![0x00, 0x11];
    shifted.extend_from_slice(&msg[..10]);
    assert_eq!(ubx_decode(&shifted).unwrap_err(), UbxError::Truncated { start: 2 });
}

#[test]
fn decode_of_damaged_frame_reports_bad_checksum() {
    let mut msg = build_cfg_save_all();
    msg[10] ^= 0x01;
    assert_eq!(ubx_decode(&msg).unwrap_err(), UbxError::BadChecksum { start: 0 });
}

#[test]
fn gnss_payloads_are_exact() {
    let s7 = build_cfg_gnss_series7_marine();
    assert_eq!(
        &s7[6..s7.len() - 2],
        &[
            0x00, 0x00, 0xFF, 0x02, 0x00, 0x08, 0x10, 0x00, 0x01, 0x00, 0x01, 0x01, 0x01, 0x01,
            0x03, 0x00, 0x01, 0x00, 0x01, 0x01
        ]
    );
    let s8 = build_cfg_gnss_series8_marine();
    assert_eq!(
        &s8[6..s8.len() - 2],
        &[
            0x00, 0x00, 0xFF, 0x04, 0x00, 0x08, 0x10, 0x00, 0x01, 0x00, 0x01, 0x01, 0x01, 0x01,
            0x03, 0x00, 0x01, 0x00, 0x01, 0x01, 0x02, 0x04, 0x08, 0x00, 0x01, 0x00, 0x01, 0x01,
            0x06, 0x08, 0x0E, 0x00, 0x01, 0x00, 0x01, 0x01
        ]
    );
}

#[test]
fn nav5_payload_fields() {
    let msg = build_cfg_nav5_sea();
    assert_eq!(msg.len(), 36 + 8);
    assert_eq!(msg[9], 0x03);
    assert_eq!(msg[18], 0x05);
    assert_eq!(msg[28], 0x00);
}

#[test]
fn sbas_payload_is_exact() {
    let msg = build_cfg_sbas_enable();
    assert_eq!((msg[2], msg[3]), (0x06, 0x16));
    assert_eq!(&msg[6..14], &[0x01, 0x07, 0x03, 0x00, 0x00, 0x00, 0x00, 0x00]);
}

#[test]
fn nmea_extended_payload_is_exact() {
    let msg = build_cfg_nmea_extended();
    assert_eq!((msg[2], msg[3]), (0x06, 0x17));
    assert_eq!(
        &msg[6..18],
        &[0x00, 0x23, 0x00, 0x02, 0x00, 0x00, 0x00, 0x00, 0x00, 0x00, 0x00, 0x01]
    );
}

#[test]
fn save_all_masks() {
    let msg = build_cfg_save_all();
    assert_eq!(&msg[6..10], &[0x00, 0x00, 0x00, 0x00]);
    assert_eq!(&msg[10..14], &[0x1F, 0x1F, 0x00, 0x00]);
    assert_eq!(&msg[14..18], &[0x00, 0x00, 0x00, 0x00]);
}

#[test]
fn cfg_msg_sets_rate_on_uart1_and_usb() {
    let msg = build_cfg_msg(0x03, 1);
    assert_eq!((msg[2], msg[3]), (0x06, 0x01));
    assert_eq!(&msg[6..14], &[0xF0, 0x03, 0x00, 0x01, 0x00, 0x01, 0x00, 0x00]);
}

#[test]
fn sentence_selection_enables_five_and_disables_gll() {
    let list = build_nmea_message_config();
    let ids: Vec<(u8, u8)> = list.iter().map(|m| (m[7], m[9])).collect();
    assert_eq!(ids, vec![(0x00, 1), (0x04, 1), (0x05, 1), (0x02, 1), (0x03, 1), (0x01, 0)]);
}

#[test]
fn command_list_order_is_fixed() {
    for series in [UbloxSeries::Series7, UbloxSeries::Series8, UbloxSeries::Unknown] {
        let cmds = get_optimization_commands(&series);
        let ids: Vec<u8> = cmds.iter().map(|m| m[3]).collect();
        assert_eq!(
            ids,
            vec![0x3E, 0x24, 0x08, 0x16, 0x17, 0x01, 0x01, 0x01, 0x01, 0x01, 0x01, 0x09]
        );
        for cmd in &cmds {
            let (frame, end) = ubx_decode(cmd).unwrap();
            assert_eq!(frame.class, 0x06);
            assert_eq!(end, cmd.len());
        }
    }
}

#[test]
fn unknown_series_gets_the_series8_constellations() {
    let unknown = get_optimization_commands(&UbloxSeries::Unknown);
    assert_eq!(unknown[0], build_cfg_gnss_series8_marine());
}

#[test]
fn profile_names() {
    assert_eq!(profile_name(&UbloxSeries::Series7), "Series 7 Marine (GPS + SBAS)");
    assert_eq!(
        profile_name(&UbloxSeries::Series8),
        "Series 8 Marine (GPS + GLONASS + Galileo + SBAS)"
    );
    assert_eq!(profile_name(&UbloxSeries::Unknown), "Generic Marine");
}

#[test]
fn series_labels() {
    assert_eq!(UbloxSeries::Series7.to_string(), "Series 7");
    assert_eq!(UbloxSeries::Series8.to_string(), "Series 8");
    assert_eq!(UbloxSeries::Unknown.to_string(), "Unknown");
}

fn mon_ver_payload(sw: &[u8], hw: &[u8], extensions: &[&[u8]]) -> Vec<u8> {
    let mut payload = vec![0u8; 40 + 30 * extensions.len()];
    payload[..sw.len()].copy_from_slice(sw);
    payload[30..30 + hw.len()].copy_from_slice(hw);
    for (k, ext) in extensions.iter().enumerate() {
        payload[40 + 30 * k..40 + 30 * k + ext.len()].copy_from_slice(ext);
    }
    payload
}

#[test]
fn mon_ver_fields_are_nul_stripped() {
    let payload = mon_ver_payload(b"EXT CORE 3.01", b"00080000", &[b"PROTVER=18.00"]);
    let info = parse_mon_ver(&payload).unwrap();
    assert_eq!(info.sw_version, "EXT CORE 3.01");
    assert_eq!(info.hw_version, "00080000");
    assert_eq!(info.extensions, vec!["PROTVER=18.00".to_string()]);
}

#[test]
fn mon_ver_skips_empty_extensions_and_short_rest() {
    let mut payload = mon_ver_payload(b"x", b"00080000", &[b"", b"GPS;GLO", b""]);
    payload.extend_from_slice(b"trailing rest");
    let info = parse_mon_ver(&payload).unwrap();
    assert_eq!(info.extensions, vec!["GPS;GLO".to_string()]);
}

#[test]
fn mon_ver_module_name_from_mod_extension() {
    let payload =
        mon_ver_payload(b"x", b"00080000", &[b"FWVER=TIM 1.10", b"MOD=NEO-M8N-0", b"MOD=OTHER"]);
    let info = parse_mon_ver(&payload).unwrap();
    assert_eq!(info.series, UbloxSeries::Series8);
    assert_eq!(info.chip_name, "NEO-M8N-0");
}

#[test]
fn mon_ver_variant_from_firmware_kind() {
    for (fw, name) in [
        (&b"FWVER=TIM 1.10"[..], "NEO-M8T"),
        (&b"FWVER=HPG 1.40"[..], "NEO-M8P"),
        (&b"FWVER=ADR 4.21"[..], "NEO-M8U"),
        (&b"FWVER=SPG 3.01"[..], "u-blox M8"),
    ] {
        let payload = mon_ver_payload(b"x", b"00080000", &[b"PROTVER=18.00", fw]);
        assert_eq!(parse_mon_ver(&payload).unwrap().chip_name, name);
    }
}

#[test]
fn mon_ver_series_rules() {
    let series = |hw: &[u8]| parse_mon_ver(&mon_ver_payload(b"x", hw, &[])).unwrap().series;
    assert_eq!(series(b"00070000"), UbloxSeries::Series7);
    assert_eq!(series(b"xxG70xx"), UbloxSeries::Series7);
    assert_eq!(series(b"00080000"), UbloxSeries::Series8);
    assert_eq!(series(b"UBX-M8030"), UbloxSeries::Series8);
    assert_eq!(series(b"NEO-M80"), UbloxSeries::Series8);
    assert_eq!(series(b"G70M80"), UbloxSeries::Series7);
    assert_eq!(series(b"00090000"), UbloxSeries::Unknown);
    assert_eq!(series(b"100070"), UbloxSeries::Unknown);
    assert_eq!(series(b""), UbloxSeries::Unknown);
}

#[test]
fn mon_ver_unknown_name_quotes_hardware_version() {
    let payload = mon_ver_payload(b"x", b"00040007", &[]);
    let info = parse_mon_ver(&payload).unwrap();
    assert_eq!(info.series, UbloxSeries::Unknown);
    assert_eq!(info.chip_name, "u-blox (HW: 00040007)");
}

#[test]
fn mon_ver_exactly_forty_bytes_is_enough() {
    assert!(parse_mon_ver(&[0u8; 39]).is_none());
    let info = parse_mon_ver(&[0u8; 40]).unwrap();
    assert_eq!(info.sw_version, "");
    assert_eq!(info.hw_version, "");
    assert!(info.extensions.is_empty());
}

#[test]
fn mon_ver_invalid_utf8_is_replaced() {
    let payload = mon_ver_payload(&[b'A', 0xFF, b'B'], b"00080000", &[]);
    let info = parse_mon_ver(&payload).unwrap();
    assert_eq!(info.sw_version, "A\u{FFFD}B");
}
