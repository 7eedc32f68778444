use scout_gps::commands::{
    device_info_for, get_test_status, push_recent, start_optimization, start_test, CommandResult,
    RECENT_RESULTS_CAPACITY,
};
use scout_gps::gps::{DetectedPort, GpsConnectionStatus, GpsManager, GpsSourceStatus};
use scout_gps::ubx_optimizer::{OptimizePhase, UbxOptimizer};
use scout_gps::nmea::GpsData;
use scout_gps::test_criteria::{DeviceInfo, TestCriteria, TestResult, TestRunner, TestVerdict};
use scout_gps::test_report::{append_sanitized, report_file_name};

fn port(name: &str, port_type: &str, serial: Option<&str>) -> DetectedPort {
    DetectedPort {
        port_name: name.to_string(),
        port_type: port_type.to_string(),
        manufacturer: Some(format!("maker of {}", name)),
        product: Some(format!("product of {}", name)),
        serial_number: serial.map(str::to_string),
        is_likely_gps: false,
    }
}

fn connected(port_name: Option<&str>) -> GpsSourceStatus {
    GpsSourceStatus {
        port_name: port_name.map(str::to_string),
        status: GpsConnectionStatus::ReceivingData,
        last_error: None,
        sentences_received: 10,
        last_fix_time: None,
    }
}

fn result(serial: Option<&str>, timestamp: &str) -> TestResult {
    TestResult {
        verdict: TestVerdict::Pass,
        criteria_results: Vec::new(),
        ttff_seconds: Some(1500),
        test_duration_seconds: 12_000,
        device_info: DeviceInfo {
            port_name: "COM3".to_string(),
            port_type: "USB".to_string(),
            manufacturer: None,
            product: None,
            serial_number: serial.map(str::to_string),
        },
        timestamp: timestamp.to_string(),
        best_gps_data: None,
    }
}

#[test]
fn reply_envelope() {
    let ok = CommandResult::ok(7u32);
    assert!(ok.success);
    assert_eq!(ok.data, Some(7));
    assert_eq!(ok.error, None);
    let err: CommandResult<u32> = CommandResult::err("No test results to save".to_string());
    assert!(!err.success);
    assert_eq!(err.data, None);
    assert_eq!(err.error.as_deref(), Some("No test results to save"));
}

#[test]
fn device_is_taken_from_the_first_port_of_that_name() {
    let ports = vec![
        port("COM1", "PCI", None),
        port("COM3", "USB", Some("first")),
        port("COM3", "Bluetooth", Some("second")),
    ];
    let device = device_info_for(&ports, "COM3");
    assert_eq!(device.port_name, "COM3");
    assert_eq!(device.port_type, "USB");
    assert_eq!(device.manufacturer.as_deref(), Some("maker of COM3"));
    assert_eq!(device.product.as_deref(), Some("product of COM3"));
    assert_eq!(device.serial_number.as_deref(), Some("first"));
}

#[test]
fn unlisted_port_gives_an_unknown_device() {
    let ports = vec![port("COM1", "PCI", Some("x"))];
    let device = device_info_for(&ports, "COM9");
    assert_eq!(device.port_name, "COM9");
    assert_eq!(device.port_type, "Unknown");
    assert_eq!(device.manufacturer, None);
    assert_eq!(device.product, None);
    assert_eq!(device.serial_number, None);
}

#[test]
fn start_test_needs_a_port() {
    let outcome = start_test(&connected(None), &Some(Vec::new()), TestCriteria::default(), 0);
    assert_eq!(outcome.unwrap_err(), "No GPS connected. Connect a GPS device first.");
}

#[test]
fn start_test_needs_an_open_port() {
    let refused = [
        GpsConnectionStatus::Disconnected,
        GpsConnectionStatus::Connecting,
        GpsConnectionStatus::Error,
    ];
    for state in refused {
        let mut status = connected(Some("COM3"));
        status.status = state;
        let outcome = start_test(&status, &None, TestCriteria::default(), 0);
        assert_eq!(
            outcome.unwrap_err(),
            "No GPS connected. Connect a GPS device first.",
            "{:?}",
            state
        );
    }
    for state in [GpsConnectionStatus::Connected, GpsConnectionStatus::ReceivingData] {
        let mut status = connected(Some("COM3"));
        status.status = state;
        assert!(start_test(&status, &None, TestCriteria::default(), 0).is_ok());
        status.port_name = None;
        assert!(start_test(&status, &None, TestCriteria::default(), 0).is_err());
    }
}

#[test]
fn no_test_starts_after_a_disconnect() {
    let mut manager = GpsManager::new();
    assert!(start_test(&manager.get_status(), &None, TestCriteria::default(), 0).is_err());
    manager.connect("COM3");
    assert!(start_test(&manager.get_status(), &None, TestCriteria::default(), 0).is_err());
    manager.port_opened();
    assert!(start_test(&manager.get_status(), &None, TestCriteria::default(), 0).is_ok());
    manager.on_line("$GPGGA,092750.000,5321.6802,N,00630.3372,W,1,8,1.03,61.7,M,55.2,M,,*76");
    assert!(start_test(&manager.get_status(), &None, TestCriteria::default(), 0).is_ok());
    manager.disconnect();
    let outcome = start_test(&manager.get_status(), &None, TestCriteria::default(), 0);
    assert!(outcome.unwrap_err().contains("No GPS connected"));
    manager.connect("COM3");
    manager.fail("could not open".to_string());
    assert!(start_test(&manager.get_status(), &None, TestCriteria::default(), 0).is_err());
}

#[test]
fn optimization_needs_an_open_port() {
    let mut optimizer = UbxOptimizer::new();
    let mut status = connected(Some("COM3"));
    status.status = GpsConnectionStatus::Disconnected;
    let outcome = start_optimization(&status, &mut optimizer, 5);
    assert_eq!(outcome.unwrap_err(), "No GPS connected. Connect a GPS device first.");
    assert_eq!(optimizer.phase, OptimizePhase::Idle);
    assert!(optimizer.pending_commands.is_empty());
    assert!(start_optimization(&connected(None), &mut optimizer, 5).is_err());
    assert!(start_optimization(&connected(Some("COM3")), &mut optimizer, 5).is_ok());
    assert_eq!(optimizer.phase, OptimizePhase::IdentifyingChip);
    assert_eq!(optimizer.phase_start, Some(5));
    assert_eq!(optimizer.pending_commands.len(), 1);
}

#[test]
fn start_test_captures_the_device_and_starts() {
    let ports = Some(vec![port("COM3", "USB", Some("SN1"))]);
    let mut criteria = TestCriteria::default();
    criteria.min_satellites = 9;
    let runner = start_test(&connected(Some("COM3")), &ports, criteria, 4_000).unwrap();
    assert_eq!(runner.verdict, TestVerdict::Running);
    assert_eq!(runner.start_time, Some(4_000));
    assert_eq!(runner.criteria.min_satellites, 9);
    assert_eq!(runner.device_info.serial_number.as_deref(), Some("SN1"));
    let blind = start_test(&connected(Some("COM3")), &None, criteria, 0).unwrap();
    assert_eq!(blind.device_info.port_name, "COM3");
    assert_eq!(blind.device_info.port_type, "Unknown");
    assert_eq!(blind.device_info.serial_number, None);
}

#[test]
fn status_without_runner_says_not_started() {
    let mut none: Option<TestRunner> = None;
    let status = get_test_status(&mut none, &GpsData::new(), 99, "now".to_string());
    assert_eq!(status.verdict, TestVerdict::NotStarted);
    assert!(status.criteria_results.is_empty());
    assert_eq!(status.ttff_seconds, None);
    assert_eq!(status.test_duration_seconds, 0);
    assert_eq!(status.device_info.port_name, "None");
    assert_eq!(status.device_info.port_type, "None");
    assert_eq!(status.timestamp, "now");
    assert!(status.best_gps_data.is_none());
    assert!(none.is_none());
}

#[test]
fn status_of_a_running_test_evaluates_first() {
    let ports = Some(vec![port("COM3", "USB", None)]);
    let runner = start_test(&connected(Some("COM3")), &ports, TestCriteria::default(), 0).unwrap();
    let mut some = Some(runner);
    let mut data = GpsData::new();
    data.fix_quality = Some(2);
    let status = get_test_status(&mut some, &data, 2_500, "t".to_string());
    assert_eq!(status.verdict, TestVerdict::Running);
    assert_eq!(status.criteria_results.len(), 8);
    assert_eq!(status.ttff_seconds, Some(2_500));
    assert_eq!(status.test_duration_seconds, 2_500);
    assert_eq!(status.best_gps_data.unwrap().fix_quality, Some(2));
    some.as_mut().unwrap().abort();
    let status = get_test_status(&mut some, &GpsData::new(), 9_000, "t".to_string());
    assert_eq!(status.verdict, TestVerdict::Fail);
    assert_eq!(status.criteria_results.len(), 8);
    assert!(status.criteria_results[6].passed);
}

#[test]
fn recent_results_are_bounded() {
    let mut recent = Vec::new();
    for k in 0..120 {
        push_recent(&mut recent, result(None, &k.to_string()));
        assert!(recent.len() <= RECENT_RESULTS_CAPACITY);
        assert_eq!(recent.last().unwrap().timestamp, k.to_string());
    }
    assert_eq!(recent.len(), 50);
    assert_eq!(recent[0].timestamp, "70");
    assert_eq!(recent[49].timestamp, "119");
}

#[test]
fn report_file_names() {
    assert_eq!(
        report_file_name(&result(Some("A1B2"), "2024-05-01T10:20:30.123456+00:00")),
        "gps-test_A1B2_2024-05-01T10-20-30-123456+00-00.json"
    );
    assert_eq!(
        report_file_name(&result(None, "2024-05-01T10:20:30Z")),
        "gps-test_unknown_2024-05-01T10-20-30Z.json"
    );
    assert_eq!(report_file_name(&result(Some(""), "")), "gps-test__.json");
}

#[test]
fn sanitizing_keeps_other_characters() {
    let mut out = "x".to_string();
    append_sanitized(&mut out, "a:b.c-\u{e9}:.");
    assert_eq!(out, "xa-b-c-\u{e9}--");
}
