use scout_gps::nmea::{Constellation, GpsData, SatelliteInfo};
use scout_gps::test_criteria::{
    evaluate_criteria, CriterionResult, DeviceInfo, TestCriteria, TestRunner, TestVerdict,
};

fn sat(constellation: Constellation, prn: u32, snr_db: i64) -> SatelliteInfo {
    SatelliteInfo {
        prn,
        elevation: Some(45_000),
        azimuth: Some(180_000),
        snr: Some(snr_db * 1000),
        constellation,
    }
}

fn good_observation() -> GpsData {
    let mut data = GpsData::new();
    data.satellites = Some(8);
    data.hdop = Some(1200);
    data.pdop = Some(2000);
    data.fix_quality = Some(1);
    data.satellites_info = vec![
        sat(Constellation::Gps, 1, 32),
        sat(Constellation::Gps, 2, 32),
        sat(Constellation::Gps, 3, 32),
        sat(Constellation::Glonass, 70, 32),
        sat(Constellation::Glonass, 71, 32),
    ];
    data
}

fn device() -> DeviceInfo {
    DeviceInfo {
        port_name: "/dev/ttyACM0".to_string(),
        port_type: "USB".to_string(),
        manufacturer: Some("u-blox AG".to_string()),
        product: None,
        serial_number: Some("A1B2".to_string()),
    }
}

fn started(now: u64) -> TestRunner {
    let mut runner = TestRunner::new(TestCriteria::default(), device());
    runner.start(now);
    runner
}

fn flags(results: &[CriterionResult]) -> Vec<bool> {
    results.iter().map(|r| r.passed).collect()
}

#[test]
fn default_criteria() {
    let c = TestCriteria::default();
    assert_eq!(c.min_satellites, 6);
    assert_eq!(c.max_hdop, 2000);
    assert_eq!(c.max_pdop, 3000);
    assert_eq!(c.min_avg_snr, 25_000);
    assert_eq!(c.min_strong_satellites, 4);
    assert_eq!(c.max_ttff_seconds, 60);
    assert_eq!(c.min_constellations, 2);
    assert_eq!(c.min_fix_quality, 1);
    assert_eq!(c.stability_duration_seconds, 10);
}

#[test]
fn runner_passes_after_the_stability_window() {
    let mut runner = started(1_000);
    let data = good_observation();
    let mut now = 1_000;
    while now < 1_000 + 10_000 {
        runner.evaluate(&data, now);
        assert_eq!(runner.verdict, TestVerdict::Running, "at {} ms", now);
        now += 500;
    }
    while now <= 1_000 + 11_000 {
        runner.evaluate(&data, now);
        now += 500;
    }
    assert_eq!(runner.verdict, TestVerdict::Pass);
}

#[test]
fn failing_criterion_resets_the_stability_window() {
    let mut runner = started(0);
    let good = good_observation();
    let mut bad = good_observation();
    bad.hdop = Some(3000);
    let mut now = 0;
    while now <= 11_000 {
        let data = if now == 5_000 { &bad } else { &good };
        runner.evaluate(data, now);
        now += 500;
    }
    assert_eq!(runner.verdict, TestVerdict::Running);
    assert_eq!(runner.stable_since, Some(5_500));
    runner.evaluate(&good, 15_499);
    assert_eq!(runner.verdict, TestVerdict::Running);
    runner.evaluate(&good, 15_500);
    assert_eq!(runner.verdict, TestVerdict::Pass);
}

#[test]
fn hdop_that_stays_bad_gives_no_pass() {
    let mut runner = started(0);
    let good = good_observation();
    let mut bad = good_observation();
    bad.hdop = Some(3000);
    let mut now = 0;
    while now <= 11_000 {
        let data = if now >= 5_000 { &bad } else { &good };
        let results = runner.evaluate(data, now);
        if now >= 5_000 {
            assert_eq!(flags(&results), vec![true, false, true, true, true, true, true, true]);
            assert_eq!(runner.stable_since, None);
        }
        now += 500;
    }
    assert_eq!(runner.verdict, TestVerdict::Running);
}

#[test]
fn criterion_texts() {
    let mut runner = started(0);
    let results = runner.evaluate(&good_observation(), 0);
    let shown: Vec<(&str, bool, &str, &str)> = results
        .iter()
        .map(|r| (r.name.as_str(), r.passed, r.expected.as_str(), r.actual.as_str()))
        .collect();
    assert_eq!(
        shown,
        vec![
            ("Satellite Count", true, ">= 6", "8"),
            ("HDOP", true, "<= 2.0", "1.2"),
            ("PDOP", true, "<= 3.0", "2.0"),
            ("Average SNR", true, ">= 25.0 dB", "32.0 dB"),
            ("Strong Sats (SNR>=30)", true, ">= 4", "5"),
            ("Constellations", true, ">= 2", "2 (GLONASS, GPS)"),
            ("Fix Quality", true, ">= 1", "1"),
            ("Time to First Fix", true, "<= 60s", "0.0s"),
        ]
    );
}

#[test]
fn empty_observation_fails_everything() {
    let mut runner = started(0);
    let results = runner.evaluate(&GpsData::new(), 2_000);
    assert_eq!(flags(&results), vec![false; 8]);
    let actual: Vec<&str> = results.iter().map(|r| r.actual.as_str()).collect();
    assert_eq!(actual, vec!["0", "-", "-", "0.0 dB", "0", "0 ()", "0", "Waiting..."]);
    assert_eq!(runner.first_fix_time, None);
    assert_eq!(runner.ttff_seconds(), None);
}

#[test]
fn each_criterion_decides_on_its_own_threshold() {
    let c = TestCriteria::default();
    let check = |change: &dyn Fn(&mut GpsData)| {
        let mut data = good_observation();
        change(&mut data);
        flags(&evaluate_criteria(&c, &data, true, Some(0)))
    };
    assert_eq!(check(&|_| {}), vec![true; 8]);
    assert!(check(&|d| d.satellites = Some(6))[0]);
    assert!(!check(&|d| d.satellites = Some(5))[0]);
    assert!(check(&|d| d.hdop = Some(2000))[1]);
    assert!(!check(&|d| d.hdop = Some(2001))[1]);
    assert!(!check(&|d| d.hdop = None)[1]);
    assert!(check(&|d| d.pdop = Some(3000))[2]);
    assert!(!check(&|d| d.pdop = Some(3001))[2]);
    assert!(!check(&|d| d.pdop = None)[2]);
    assert!(!check(&|d| d.fix_quality = Some(0))[6]);
    assert!(!check(&|d| d.fix_quality = None)[6]);
    assert!(check(&|d| d.fix_quality = Some(4))[6]);
}

#[test]
fn average_snr_counts_only_satellites_with_signal() {
    let c = TestCriteria::default();
    let mut data = good_observation();
    data.satellites_info = vec![
        sat(Constellation::Gps, 1, 30),
        sat(Constellation::Gps, 2, 19),
        sat(Constellation::Gps, 3, 0),
        SatelliteInfo {
            prn: 4,
            elevation: None,
            azimuth: None,
            snr: None,
            constellation: Constellation::Galileo,
        },
    ];
    let results = evaluate_criteria(&c, &data, true, Some(0));
    assert!(!results[3].passed);
    assert_eq!(results[3].actual, "24.5 dB");
    assert!(!results[4].passed);
    assert_eq!(results[4].actual, "1");
    assert!(results[5].passed);
    assert_eq!(results[5].actual, "2 (GPS, Galileo)");
    data.satellites_info[1] = sat(Constellation::Gps, 2, 20);
    let results = evaluate_criteria(&c, &data, true, Some(0));
    assert!(results[3].passed);
    assert_eq!(results[3].actual, "25.0 dB");
}

#[test]
fn constellations_are_counted_once_each() {
    let c = TestCriteria::default();
    let mut data = good_observation();
    data.satellites_info = vec![
        sat(Constellation::Qzss, 1, 40),
        sat(Constellation::BeiDou, 2, 40),
        sat(Constellation::NavIc, 3, 40),
        sat(Constellation::Qzss, 4, 40),
        sat(Constellation::Galileo, 5, 40),
        sat(Constellation::Gps, 6, 40),
        sat(Constellation::Glonass, 7, 40),
    ];
    let results = evaluate_criteria(&c, &data, true, Some(0));
    assert_eq!(results[5].actual, "6 (BeiDou, GLONASS, GPS, Galileo, NavIC, QZSS)");
    data.satellites_info.truncate(1);
    let results = evaluate_criteria(&c, &data, true, Some(0));
    assert!(!results[5].passed);
    assert_eq!(results[5].actual, "1 (QZSS)");
}

#[test]
fn first_fix_is_recorded_once() {
    let mut runner = started(10_000);
    let mut no_fix = good_observation();
    no_fix.fix_quality = Some(0);
    let results = runner.evaluate(&no_fix, 12_000);
    assert!(!results[7].passed);
    assert_eq!(results[7].actual, "Waiting...");
    let results = runner.evaluate(&good_observation(), 14_250);
    assert!(results[7].passed);
    assert_eq!(results[7].actual, "4.3s");
    assert_eq!(runner.ttff_seconds(), Some(4_250));
    runner.evaluate(&no_fix, 15_000);
    let results = runner.evaluate(&good_observation(), 16_000);
    assert_eq!(runner.first_fix_time, Some(14_250));
    assert_eq!(results[7].actual, "4.3s");
    assert!(results[7].passed);
}

#[test]
fn ttff_is_a_gate_not_a_limit() {
    let mut runner = started(0);
    let results = runner.evaluate(&good_observation(), 100_000);
    assert!(results[7].passed);
    assert_eq!(results[7].expected, "<= 60s");
    assert_eq!(results[7].actual, "100.0s");
}

#[test]
fn total_timeout_without_fix_is_timed_out() {
    let mut runner = started(0);
    runner.evaluate(&GpsData::new(), 190_000);
    assert_eq!(runner.verdict, TestVerdict::Running);
    runner.evaluate(&GpsData::new(), 190_001);
    assert_eq!(runner.verdict, TestVerdict::TimedOut);
}

#[test]
fn total_timeout_with_fix_is_fail() {
    let mut runner = started(0);
    let mut weak = good_observation();
    weak.satellites = Some(3);
    runner.evaluate(&weak, 1_000);
    runner.evaluate(&weak, 190_001);
    assert_eq!(runner.verdict, TestVerdict::Fail);
}

#[test]
fn total_timeout_overrides_a_pass_of_the_same_evaluation() {
    let mut runner = started(0);
    let data = good_observation();
    runner.evaluate(&data, 185_000);
    runner.evaluate(&data, 195_000);
    assert_eq!(runner.verdict, TestVerdict::Fail);
}

#[test]
fn terminal_verdict_stays() {
    for end in [TestVerdict::Pass, TestVerdict::Fail, TestVerdict::TimedOut] {
        let mut runner = started(0);
        let first = runner.evaluate(&good_observation(), 0);
        runner.verdict = end;
        let again = runner.evaluate(&GpsData::new(), 500_000);
        assert_eq!(runner.verdict, end);
        assert_eq!(format!("{:?}", again), format!("{:?}", first));
        assert_eq!(runner.first_fix_time, Some(0));
        assert_eq!(runner.stable_since, Some(0));
    }
}

#[test]
fn evaluate_before_start_does_nothing() {
    let mut runner = TestRunner::new(TestCriteria::default(), device());
    let results = runner.evaluate(&good_observation(), 5);
    assert!(results.is_empty());
    assert_eq!(runner.verdict, TestVerdict::NotStarted);
    assert_eq!(runner.elapsed_seconds(100), 0);
}

#[test]
fn abort_fails_at_once_and_sticks() {
    let mut runner = started(0);
    runner.evaluate(&good_observation(), 0);
    runner.abort();
    assert_eq!(runner.verdict, TestVerdict::Fail);
    runner.evaluate(&good_observation(), 20_000);
    assert_eq!(runner.verdict, TestVerdict::Fail);
    let mut done = started(0);
    done.verdict = TestVerdict::Pass;
    done.abort();
    assert_eq!(done.verdict, TestVerdict::Fail);
}

#[test]
fn restart_clears_the_run() {
    let mut runner = started(0);
    runner.evaluate(&good_observation(), 0);
    runner.evaluate(&good_observation(), 10_000);
    assert_eq!(runner.verdict, TestVerdict::Pass);
    runner.start(50_000);
    assert_eq!(runner.verdict, TestVerdict::Running);
    assert_eq!(runner.first_fix_time, None);
    assert_eq!(runner.stable_since, None);
    assert_eq!(runner.best_satellites, 0);
    assert!(runner.last_criteria_results.is_empty());
    assert_eq!(runner.elapsed_seconds(50_750), 750);
}

#[test]
fn best_satellite_count_is_tracked() {
    let mut runner = started(0);
    let mut data = good_observation();
    runner.evaluate(&data, 0);
    data.satellites = Some(12);
    runner.evaluate(&data, 500);
    data.satellites = Some(7);
    runner.evaluate(&data, 1_000);
    assert_eq!(runner.best_satellites, 12);
}

#[test]
fn clock_that_goes_backwards_counts_as_no_time() {
    let runner = started(5_000);
    assert_eq!(runner.elapsed_seconds(4_000), 0);
    assert_eq!(runner.elapsed_seconds(5_000), 0);
    assert_eq!(runner.elapsed_seconds(6_500), 1_500);
}

#[test]
fn zero_stability_window_passes_at_once() {
    let mut criteria = TestCriteria::default();
    criteria.stability_duration_seconds = 0;
    let mut runner = TestRunner::new(criteria, device());
    runner.start(0);
    runner.evaluate(&good_observation(), 0);
    assert_eq!(runner.verdict, TestVerdict::Pass);
}

#[test]
fn huge_limits_do_not_overflow() {
    let mut criteria = TestCriteria::default();
    criteria.max_ttff_seconds = u64::MAX;
    criteria.stability_duration_seconds = u64::MAX;
    let mut runner = TestRunner::new(criteria, device());
    runner.start(0);
    runner.evaluate(&good_observation(), u64::MAX);
    assert_eq!(runner.verdict, TestVerdict::Running);
}

#[test]
fn result_snapshot() {
    let mut runner = started(1_000);
    let data = good_observation();
    runner.evaluate(&data, 3_000);
    let result = runner.result_at(Some(&data), 4_500, "2024-05-01T10:00:00+00:00".to_string());
    assert_eq!(result.verdict, TestVerdict::Running);
    assert_eq!(result.criteria_results.len(), 8);
    assert_eq!(result.ttff_seconds, Some(2_000));
    assert_eq!(result.test_duration_seconds, 3_500);
    assert_eq!(result.device_info.port_name, "/dev/ttyACM0");
    assert_eq!(result.device_info.serial_number.as_deref(), Some("A1B2"));
    assert_eq!(result.timestamp, "2024-05-01T10:00:00+00:00");
    assert_eq!(result.best_gps_data.unwrap().hdop, Some(1200));
    let bare = runner.result_at(None, 4_500, String::new());
    assert!(bare.best_gps_data.is_none());
}

#[test]
fn result_without_fix_has_no_ttff() {
    let mut runner = started(0);
    runner.evaluate(&GpsData::new(), 200_000);
    let result = runner.get_result(Some(&GpsData::new()), 200_000);
    assert_eq!(result.verdict, TestVerdict::TimedOut);
    assert_eq!(result.ttff_seconds, None);
    assert!(result.best_gps_data.is_some());
    assert!(result.timestamp.contains('T'));
    assert!(result.timestamp.len() >= 20);
}
