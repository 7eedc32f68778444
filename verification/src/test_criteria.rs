//! Acceptance test: eight criteria evaluated against each observation, a
//! stability window that all of them must hold for, and a total timeout.
//!
//! The runner keeps no clock of its own. Every operation that depends on time
//! takes the current reading of a monotonic clock in milliseconds.

use crate::clock::utc_timestamp;
use crate::metrics::{
    average_snr, comma_joined, lemma_two_constellations, lemma_uniform_signal, mean_signal,
    strong_count, summarize_signal, ConstellationSet, SignalSummary, STRONG_SNR,
};
use crate::nmea::{GpsData, Observation};
use crate::text::{
    append_decimal, append_one_decimal, append_one_decimal_unsigned, clone_text, decimal,
    one_decimal, text_of, texts,
};
use vstd::prelude::*;
use vstd::string::*;

verus! {

/// Thresholds of the acceptance test. DOP and SNR limits are in thousandths.
#[derive(Debug, Clone, Copy, PartialEq, Eq, Structural)]
pub struct TestCriteria {
    pub min_satellites: u32,
    pub max_hdop: i64,
    pub max_pdop: i64,
    pub min_avg_snr: i64,
    pub min_strong_satellites: u32,
    pub max_ttff_seconds: u64,
    pub min_constellations: u32,
    pub min_fix_quality: u8,
    pub stability_duration_seconds: u64,
}

impl TestCriteria {
    /// The default thresholds: 6 satellites, HDOP 2.0, PDOP 3.0, mean SNR
    /// 25 dB, 4 strong satellites, first fix within 60 s, 2 constellations,
    /// fix quality 1, 10 s of stability.
    pub open spec fn defaults() -> TestCriteria {
        TestCriteria {
            min_satellites: 6,
            max_hdop: 2000,
            max_pdop: 3000,
            min_avg_snr: 25000,
            min_strong_satellites: 4,
            max_ttff_seconds: 60,
            min_constellations: 2,
            min_fix_quality: 1,
            stability_duration_seconds: 10,
        }
    }

    /// Length of the whole test in milliseconds: three times the limit for
    /// the first fix plus the stability window.
    pub open spec fn total_timeout_ms(self) -> int {
        (3 * self.max_ttff_seconds + self.stability_duration_seconds) * 1000
    }
}

impl Default for TestCriteria {
    fn default() -> (criteria: TestCriteria)
        ensures
            criteria == TestCriteria::defaults(),
    {
        TestCriteria {
            min_satellites: 6,
            max_hdop: 2000,
            max_pdop: 3000,
            min_avg_snr: 25000,
            min_strong_satellites: 4,
            max_ttff_seconds: 60,
            min_constellations: 2,
            min_fix_quality: 1,
            stability_duration_seconds: 10,
        }
    }
}

/// Outcome of one criterion. The two texts are for display; `passed` decides.
#[derive(Debug)]
pub struct CriterionResult {
    pub name: String,
    pub passed: bool,
    pub expected: String,
    pub actual: String,
}

/// Mathematical value of a `CriterionResult`.
pub ghost struct CriterionView {
    pub name: Seq<char>,
    pub passed: bool,
    pub expected: Seq<char>,
    pub actual: Seq<char>,
}

impl View for CriterionResult {
    type V = CriterionView;

    open spec fn view(&self) -> CriterionView {
        CriterionView {
            name: self.name@,
            passed: self.passed,
            expected: self.expected@,
            actual: self.actual@,
        }
    }
}

impl Clone for CriterionResult {
    fn clone(&self) -> (copy: CriterionResult)
        ensures
            copy@ == self@,
    {
        CriterionResult {
            name: self.name.clone(),
            passed: self.passed,
            expected: self.expected.clone(),
            actual: self.actual.clone(),
        }
    }
}

/// The values of a list of criterion results.
pub open spec fn result_views(list: Seq<CriterionResult>) -> Seq<CriterionView> {
    list.map_values(|r: CriterionResult| r@)
}

/// A copy of a list of criterion results.
pub fn clone_results(list: &Vec<CriterionResult>) -> (copy: Vec<CriterionResult>)
    ensures
        result_views(copy@) == result_views(list@),
{
    let mut copy: Vec<CriterionResult> = Vec::new();
    let mut i: usize = 0;
    while i < list.len()
        invariant
            i <= list@.len(),
            copy@.len() == i,
            forall|j: int| 0 <= j < i ==> (#[trigger] copy@[j])@ == list@[j]@,
        decreases list@.len() - i,
    {
        let item: CriterionResult = list[i].clone();
        copy.push(item);
        i += 1;
    }
    proof {
        assert(result_views(copy@) =~= result_views(list@));
    }
    copy
}

/// Overall state of an acceptance test.
#[derive(Debug, Clone, Copy, PartialEq, Eq, Structural)]
pub enum TestVerdict {
    Pass,
    Fail,
    Running,
    NotStarted,
    TimedOut,
}

impl TestVerdict {
    /// The verdict is final: pass, fail or timed out.
    pub open spec fn is_terminal(self) -> bool {
        self == TestVerdict::Pass || self == TestVerdict::Fail || self == TestVerdict::TimedOut
    }
}

/// Hardware identity of the device under test.
#[derive(Debug)]
pub struct DeviceInfo {
    pub port_name: String,
    pub port_type: String,
    pub manufacturer: Option<String>,
    pub product: Option<String>,
    pub serial_number: Option<String>,
}

/// Mathematical value of a `DeviceInfo`.
pub ghost struct DeviceView {
    pub port_name: Seq<char>,
    pub port_type: Seq<char>,
    pub manufacturer: Option<Seq<char>>,
    pub product: Option<Seq<char>>,
    pub serial_number: Option<Seq<char>>,
}

impl View for DeviceInfo {
    type V = DeviceView;

    open spec fn view(&self) -> DeviceView {
        DeviceView {
            port_name: self.port_name@,
            port_type: self.port_type@,
            manufacturer: text_of(self.manufacturer),
            product: text_of(self.product),
            serial_number: text_of(self.serial_number),
        }
    }
}

impl Clone for DeviceInfo {
    fn clone(&self) -> (copy: DeviceInfo)
        ensures
            copy@ == self@,
    {
        DeviceInfo {
            port_name: self.port_name.clone(),
            port_type: self.port_type.clone(),
            manufacturer: clone_text(&self.manufacturer),
            product: clone_text(&self.product),
            serial_number: clone_text(&self.serial_number),
        }
    }
}

/// Snapshot of a test. Time to first fix and duration are in milliseconds.
#[derive(Debug)]
pub struct TestResult {
    pub verdict: TestVerdict,
    pub criteria_results: Vec<CriterionResult>,
    pub ttff_seconds: Option<u64>,
    pub test_duration_seconds: u64,
    pub device_info: DeviceInfo,
    pub timestamp: String,
    pub best_gps_data: Option<GpsData>,
}

/// Mathematical value of a `TestResult`.
pub ghost struct ResultView {
    pub verdict: TestVerdict,
    pub criteria_results: Seq<CriterionView>,
    pub ttff_seconds: Option<u64>,
    pub test_duration_seconds: u64,
    pub device_info: DeviceView,
    pub timestamp: Seq<char>,
    pub best_gps_data: Option<Observation>,
}

/// The value of an optional observation.
pub open spec fn observation_of(data: Option<GpsData>) -> Option<Observation> {
    match data {
        Some(d) => Some(d@),
        None => None,
    }
}

impl View for TestResult {
    type V = ResultView;

    open spec fn view(&self) -> ResultView {
        ResultView {
            verdict: self.verdict,
            criteria_results: result_views(self.criteria_results@),
            ttff_seconds: self.ttff_seconds,
            test_duration_seconds: self.test_duration_seconds,
            device_info: self.device_info@,
            timestamp: self.timestamp@,
            best_gps_data: observation_of(self.best_gps_data),
        }
    }
}

impl Clone for TestResult {
    fn clone(&self) -> (copy: TestResult)
        ensures
            copy@ == self@,
    {
        TestResult {
            verdict: self.verdict,
            criteria_results: clone_results(&self.criteria_results),
            ttff_seconds: self.ttff_seconds,
            test_duration_seconds: self.test_duration_seconds,
            device_info: self.device_info.clone(),
            timestamp: self.timestamp.clone(),
            best_gps_data: match &self.best_gps_data {
                Some(d) => Some(d.duplicate()),
                None => None,
            },
        }
    }
}

/// Number of satellites in the fix, zero when unknown.
pub open spec fn satellites_in_fix(d: Observation) -> u32 {
    match d.satellites {
        Some(n) => n,
        None => 0,
    }
}

/// Fix quality, zero when unknown.
pub open spec fn quality_now(d: Observation) -> u8 {
    match d.fix_quality {
        Some(q) => q,
        None => 0,
    }
}

/// The observation holds a fix of the demanded quality.
pub open spec fn has_fix(c: TestCriteria, d: Observation) -> bool {
    quality_now(d) >= c.min_fix_quality
}

/// An absent DOP fails; a present one passes when it is within the limit.
/// Both are in thousandths, so a value is judged as rounded to the nearest
/// thousandth.
pub open spec fn within(value: Option<i64>, limit: i64) -> bool {
    value.is_some() && value.unwrap() <= limit
}

/// Display text of an optional quantity in thousandths.
pub open spec fn optional_one_decimal(value: Option<i64>) -> Seq<char> {
    match value {
        Some(v) => one_decimal(v as int),
        None => "-"@,
    }
}

/// Criterion 1: enough satellites in the fix.
pub open spec fn satellite_criterion(c: TestCriteria, d: Observation) -> CriterionView {
    CriterionView {
        name: "Satellite Count"@,
        passed: satellites_in_fix(d) >= c.min_satellites,
        expected: ">= "@ + decimal(c.min_satellites as nat),
        actual: decimal(satellites_in_fix(d) as nat),
    }
}

/// Criteria 2 and 3: a dilution of precision within its limit.
pub open spec fn dop_criterion(name: Seq<char>, value: Option<i64>, limit: i64) -> CriterionView {
    CriterionView {
        name,
        passed: within(value, limit),
        expected: "<= "@ + one_decimal(limit as int),
        actual: optional_one_decimal(value),
    }
}

/// Criterion 4: mean SNR of the satellites with a signal, zero without any.
pub open spec fn snr_criterion(c: TestCriteria, d: Observation) -> CriterionView {
    CriterionView {
        name: "Average SNR"@,
        passed: average_snr(d.satellites_info) >= c.min_avg_snr,
        expected: ">= "@ + one_decimal(c.min_avg_snr as int) + " dB"@,
        actual: one_decimal(average_snr(d.satellites_info) as int) + " dB"@,
    }
}

/// Criterion 5: enough satellites with an SNR of 30 dB or more.
pub open spec fn strong_criterion(c: TestCriteria, d: Observation) -> CriterionView {
    CriterionView {
        name: "Strong Sats (SNR>=30)"@,
        passed: strong_count(d.satellites_info) >= c.min_strong_satellites,
        expected: ">= "@ + decimal(c.min_strong_satellites as nat),
        actual: decimal(strong_count(d.satellites_info) as nat),
    }
}

/// Criterion 6: enough distinct constellations in view. The actual text
/// lists them by name in sorted order.
pub open spec fn constellation_criterion(c: TestCriteria, d: Observation) -> CriterionView {
    let in_view = ConstellationSet::of(d.satellites_info);
    CriterionView {
        name: "Constellations"@,
        passed: in_view.size() >= c.min_constellations,
        expected: ">= "@ + decimal(c.min_constellations as nat),
        actual: decimal(in_view.size() as nat) + " ("@ + comma_joined(in_view.names_of()) + ")"@,
    }
}

/// Criterion 7: a fix of the demanded quality.
pub open spec fn fix_criterion(c: TestCriteria, d: Observation) -> CriterionView {
    CriterionView {
        name: "Fix Quality"@,
        passed: has_fix(c, d),
        expected: ">= "@ + decimal(c.min_fix_quality as nat),
        actual: decimal(quality_now(d) as nat),
    }
}

/// Criterion 8: time to first fix. It is a gate: it passes from the first fix
/// on, and until then the actual text says that the test is waiting.
pub open spec fn ttff_criterion(c: TestCriteria, fix_seen: bool, ttff: Option<u64>) -> CriterionView {
    CriterionView {
        name: "Time to First Fix"@,
        passed: fix_seen,
        expected: "<= "@ + decimal(c.max_ttff_seconds as nat) + "s"@,
        actual: match ttff {
            Some(t) => one_decimal(t as int) + "s"@,
            None => "Waiting..."@,
        },
    }
}

/// The eight criterion outcomes, in their fixed order, for observation `d`.
/// `ttff` is the time to first fix in milliseconds once it is known and
/// `fix_seen` says whether a fix has been seen at all.
pub open spec fn criterion_views(
    c: TestCriteria,
    d: Observation,
    fix_seen: bool,
    ttff: Option<u64>,
) -> Seq<CriterionView> {
    seq![
        satellite_criterion(c, d),
        dop_criterion("HDOP"@, d.hdop, c.max_hdop),
        dop_criterion("PDOP"@, d.pdop, c.max_pdop),
        snr_criterion(c, d),
        strong_criterion(c, d),
        constellation_criterion(c, d),
        fix_criterion(c, d),
        ttff_criterion(c, fix_seen, ttff),
    ]
}

/// Every outcome of the list passed.
pub open spec fn all_passed(results: Seq<CriterionView>) -> bool {
    forall|i: int| 0 <= i < results.len() ==> (#[trigger] results[i]).passed
}

/// `later - earlier`, zero when the clock reading went backwards.
pub open spec fn since(earlier: u64, later: u64) -> u64 {
    if later >= earlier {
        (later - earlier) as u64
    } else {
        0
    }
}

/// Mathematical state of a runner.
pub ghost struct RunnerState {
    pub criteria: TestCriteria,
    pub device_info: DeviceView,
    pub start_time: Option<u64>,
    pub first_fix_time: Option<u64>,
    pub stable_since: Option<u64>,
    pub verdict: TestVerdict,
    pub last_results: Seq<CriterionView>,
    pub best_satellites: u32,
}

impl RunnerState {
    /// A runner for a device that has not been started.
    pub open spec fn fresh(criteria: TestCriteria, device_info: DeviceView) -> RunnerState {
        RunnerState {
            criteria,
            device_info,
            start_time: None,
            first_fix_time: None,
            stable_since: None,
            verdict: TestVerdict::NotStarted,
            last_results: Seq::empty(),
            best_satellites: 0,
        }
    }

    /// The state right after a start at clock reading `now`.
    pub open spec fn started(self, now: u64) -> RunnerState {
        RunnerState {
            criteria: self.criteria,
            device_info: self.device_info,
            start_time: Some(now),
            first_fix_time: None,
            stable_since: None,
            verdict: TestVerdict::Running,
            last_results: Seq::empty(),
            best_satellites: 0,
        }
    }

    /// Milliseconds since the start, zero before it.
    pub open spec fn elapsed(self, now: u64) -> u64 {
        match self.start_time {
            Some(start) => since(start, now),
            None => 0,
        }
    }

    /// Milliseconds from the start to the first fix, once there was one.
    pub open spec fn ttff(self) -> Option<u64> {
        match (self.start_time, self.first_fix_time) {
            (Some(start), Some(fix)) => Some(since(start, fix)),
            _ => None,
        }
    }

    /// The state after evaluating observation `d` at clock reading `now`.
    ///
    /// A runner that is not running stays as it is. A running one records
    /// the first fix, evaluates the eight criteria and keeps or restarts the
    /// stability timer. Once the total timeout is exceeded the test ends,
    /// timed out without a fix so far and failed otherwise; before that, a
    /// full stability window makes it pass.
    pub open spec fn evaluated(self, d: Observation, now: u64) -> RunnerState {
        if self.verdict != TestVerdict::Running {
            self
        } else {
            let first_fix = if has_fix(self.criteria, d) && self.first_fix_time.is_none() {
                Some(now)
            } else {
                self.first_fix_time
            };
            let with_fix = RunnerState { first_fix_time: first_fix, ..self };
            let results = criterion_views(self.criteria, d, first_fix.is_some(), with_fix.ttff());
            let stable = if all_passed(results) {
                if self.stable_since.is_some() {
                    self.stable_since
                } else {
                    Some(now)
                }
            } else {
                None
            };
            let held = stable.is_some() && since(stable.unwrap(), now)
                >= self.criteria.stability_duration_seconds * 1000;
            let verdict = if self.elapsed(now) > self.criteria.total_timeout_ms() {
                if first_fix.is_none() {
                    TestVerdict::TimedOut
                } else {
                    TestVerdict::Fail
                }
            } else if held {
                TestVerdict::Pass
            } else {
                TestVerdict::Running
            };
            RunnerState {
                criteria: self.criteria,
                device_info: self.device_info,
                start_time: self.start_time,
                first_fix_time: first_fix,
                stable_since: stable,
                verdict,
                last_results: results,
                best_satellites: if satellites_in_fix(d) > self.best_satellites {
                    satellites_in_fix(d)
                } else {
                    self.best_satellites
                },
            }
        }
    }

    /// The state after an abort: the verdict is fail, whatever it was.
    pub open spec fn aborted(self) -> RunnerState {
        RunnerState { verdict: TestVerdict::Fail, ..self }
    }
}

/// The observation meets the seven criteria that judge the observation
/// itself; the eighth only asks that a fix was seen.
pub open spec fn meets(c: TestCriteria, d: Observation) -> bool {
    &&& satellite_criterion(c, d).passed
    &&& dop_criterion("HDOP"@, d.hdop, c.max_hdop).passed
    &&& dop_criterion("PDOP"@, d.pdop, c.max_pdop).passed
    &&& snr_criterion(c, d).passed
    &&& strong_criterion(c, d).passed
    &&& constellation_criterion(c, d).passed
    &&& fix_criterion(c, d).passed
}

/// An observation meets the criteria when it holds enough satellites in the
/// fix, both dilutions within their limits and a fix of the demanded
/// quality, and when its satellites, enough of them and of two
/// constellations or more, all report one SNR that is strong and not below
/// the demanded mean.
pub proof fn lemma_uniformly_strong_observation_meets(
    c: TestCriteria,
    d: Observation,
    snr: i64,
    i: int,
    j: int,
)
    requires
        satellites_in_fix(d) >= c.min_satellites,
        within(d.hdop, c.max_hdop),
        within(d.pdop, c.max_pdop),
        has_fix(c, d),
        snr >= STRONG_SNR,
        snr >= c.min_avg_snr,
        forall|k: int|
            0 <= k < d.satellites_info.len() ==> (#[trigger] d.satellites_info[k]).snr == Some(
                snr,
            ),
        d.satellites_info.len() >= c.min_strong_satellites,
        0 <= i < d.satellites_info.len(),
        0 <= j < d.satellites_info.len(),
        d.satellites_info[i].constellation != d.satellites_info[j].constellation,
        c.min_constellations <= 2,
    ensures
        meets(c, d),
{
    lemma_uniform_signal(d.satellites_info, snr);
    lemma_two_constellations(d.satellites_info, i, j);
}

/// All eight criteria pass exactly when the observation meets the seven that
/// judge it and a fix was seen.
pub proof fn lemma_all_passed_iff_meets(
    c: TestCriteria,
    d: Observation,
    fix_seen: bool,
    ttff: Option<u64>,
)
    ensures
        all_passed(criterion_views(c, d, fix_seen, ttff)) == (meets(c, d) && fix_seen),
{
    let views = criterion_views(c, d, fix_seen, ttff);
    assert(views.len() == 8);
    if all_passed(views) {
        assert(views[0].passed && views[1].passed && views[2].passed && views[3].passed);
        assert(views[4].passed && views[5].passed && views[6].passed && views[7].passed);
    }
}

impl RunnerState {
    /// The state after the evaluations `0..n`: observation `observations[i]`
    /// at clock reading `times[i]`, in order.
    pub open spec fn evaluated_all(
        self,
        observations: Seq<Observation>,
        times: Seq<u64>,
        n: int,
    ) -> RunnerState
        decreases n,
    {
        if n <= 0 {
            self
        } else {
            self.evaluated_all(observations, times, n - 1).evaluated(
                observations[n - 1],
                times[n - 1],
            )
        }
    }

    /// The stability window in milliseconds.
    pub open spec fn window_ms(self) -> int {
        self.criteria.stability_duration_seconds * 1000
    }
}

/// The clock readings `0..n` do not go back, and all lie within the total
/// timeout of a test that `s` runs.
pub open spec fn in_time(s: RunnerState, times: Seq<u64>, n: int) -> bool {
    &&& forall|i: int, j: int| 0 <= i <= j < n ==> times[i] <= times[j]
    &&& forall|i: int| 0 <= i < n ==> s.elapsed(#[trigger] times[i]) <= s.criteria.total_timeout_ms()
}

/// A test passes when, and only when, all criteria have held for the whole
/// stability window. Of a running test whose stability timer is not set,
/// evaluated within the total timeout on observations that all meet the
/// criteria: as long as less than the window has passed since the first of
/// these evaluations the test is still running, with the timer set at that
/// first evaluation, and from the evaluation on that comes a full window
/// after the first it has passed.
pub proof fn lemma_pass_after_stable_window(
    s: RunnerState,
    observations: Seq<Observation>,
    times: Seq<u64>,
    n: int,
)
    requires
        1 <= n <= observations.len(),
        n <= times.len(),
        s.verdict == TestVerdict::Running,
        s.stable_since.is_none(),
        in_time(s, times, n),
        forall|i: int| 0 <= i < n ==> meets(s.criteria, #[trigger] observations[i]),
    ensures
        since(times[0], times[n - 1]) >= s.window_ms() ==> s.evaluated_all(
            observations,
            times,
            n,
        ).verdict == TestVerdict::Pass,
        since(times[0], times[n - 1]) < s.window_ms() ==> s.evaluated_all(
            observations,
            times,
            n,
        ).verdict == TestVerdict::Running && s.evaluated_all(observations, times, n).stable_since
            == Some(times[0]),
        s.evaluated_all(observations, times, n).criteria == s.criteria,
        s.evaluated_all(observations, times, n).start_time == s.start_time,
    decreases n,
{
    let c = s.criteria;
    if n == 1 {
        let d = observations[0];
        let now = times[0];
        assert(s.evaluated_all(observations, times, 0) == s);
        let first_fix = if has_fix(c, d) && s.first_fix_time.is_none() {
            Some(now)
        } else {
            s.first_fix_time
        };
        let with_fix = RunnerState { first_fix_time: first_fix, ..s };
        assert(has_fix(c, d));
        lemma_all_passed_iff_meets(c, d, first_fix.is_some(), with_fix.ttff());
        assert(since(now, now) == 0);
    } else {
        assert(in_time(s, times, n - 1));
        lemma_pass_after_stable_window(s, observations, times, n - 1);
        let before = s.evaluated_all(observations, times, n - 1);
        let d = observations[n - 1];
        let now = times[n - 1];
        assert(times[0] <= times[n - 2] <= now);
        if before.verdict == TestVerdict::Running {
            let first_fix = if has_fix(c, d) && before.first_fix_time.is_none() {
                Some(now)
            } else {
                before.first_fix_time
            };
            let with_fix = RunnerState { first_fix_time: first_fix, ..before };
            assert(has_fix(c, d));
            lemma_all_passed_iff_meets(c, d, first_fix.is_some(), with_fix.ttff());
            assert(before.elapsed(now) == s.elapsed(now));
        }
    }
}

/// An observation that fails a criterion gives no pass and clears the
/// stability timer: a running test that is evaluated on it within the total
/// timeout is still running afterwards, and the window starts anew.
pub proof fn lemma_failing_criterion_resets(s: RunnerState, d: Observation, now: u64)
    requires
        s.verdict == TestVerdict::Running,
        !meets(s.criteria, d),
        s.elapsed(now) <= s.criteria.total_timeout_ms(),
    ensures
        s.evaluated(d, now).verdict == TestVerdict::Running,
        s.evaluated(d, now).stable_since.is_none(),
        s.evaluated(d, now).criteria == s.criteria,
        s.evaluated(d, now).start_time == s.start_time,
{
    let c = s.criteria;
    let first_fix = if has_fix(c, d) && s.first_fix_time.is_none() {
        Some(now)
    } else {
        s.first_fix_time
    };
    let with_fix = RunnerState { first_fix_time: first_fix, ..s };
    lemma_all_passed_iff_meets(c, d, first_fix.is_some(), with_fix.ttff());
}

/// As long as every observation fails a criterion, a running test stays
/// running within the total timeout, however often it is evaluated, and its
/// stability timer stays cleared.
pub proof fn lemma_no_pass_while_a_criterion_fails(
    s: RunnerState,
    observations: Seq<Observation>,
    times: Seq<u64>,
    n: int,
)
    requires
        1 <= n <= observations.len(),
        n <= times.len(),
        s.verdict == TestVerdict::Running,
        forall|i: int| 0 <= i < n ==> s.elapsed(#[trigger] times[i]) <= s.criteria.total_timeout_ms(),
        forall|i: int| 0 <= i < n ==> !meets(s.criteria, #[trigger] observations[i]),
    ensures
        s.evaluated_all(observations, times, n).verdict == TestVerdict::Running,
        s.evaluated_all(observations, times, n).stable_since.is_none(),
        s.evaluated_all(observations, times, n).criteria == s.criteria,
        s.evaluated_all(observations, times, n).start_time == s.start_time,
    decreases n,
{
    if n == 1 {
        assert(s.evaluated_all(observations, times, 0) == s);
        lemma_failing_criterion_resets(s, observations[0], times[0]);
    } else {
        lemma_no_pass_while_a_criterion_fails(s, observations, times, n - 1);
        let before = s.evaluated_all(observations, times, n - 1);
        assert(before.elapsed(times[n - 1]) == s.elapsed(times[n - 1]));
        lemma_failing_criterion_resets(before, observations[n - 1], times[n - 1]);
    }
}

/// A criterion that fails restarts the stability window. Of a running test
/// whose stability timer is not set, evaluated within the total timeout:
/// when the first `k` observations meet the criteria for less than the
/// window and every later one fails a criterion, the test is still running
/// after each of the later evaluations, with the timer cleared.
pub proof fn lemma_failure_restarts_the_window(
    s: RunnerState,
    observations: Seq<Observation>,
    times: Seq<u64>,
    k: int,
    n: int,
)
    requires
        0 <= k < n <= observations.len(),
        n <= times.len(),
        s.verdict == TestVerdict::Running,
        s.stable_since.is_none(),
        in_time(s, times, n),
        forall|i: int| 0 <= i < k ==> meets(s.criteria, #[trigger] observations[i]),
        forall|i: int| k <= i < n ==> !meets(s.criteria, #[trigger] observations[i]),
        k > 0 ==> since(times[0], times[k - 1]) < s.window_ms(),
    ensures
        s.evaluated_all(observations, times, n).verdict == TestVerdict::Running,
        s.evaluated_all(observations, times, n).stable_since.is_none(),
        s.evaluated_all(observations, times, n).criteria == s.criteria,
        s.evaluated_all(observations, times, n).start_time == s.start_time,
    decreases n,
{
    let before = s.evaluated_all(observations, times, n - 1);
    if n - 1 == k {
        if k == 0 {
            assert(before == s);
        } else {
            assert(in_time(s, times, k));
            lemma_pass_after_stable_window(s, observations, times, k);
        }
    } else {
        assert(in_time(s, times, n - 1));
        lemma_failure_restarts_the_window(s, observations, times, k, n - 1);
    }
    assert(before.elapsed(times[n - 1]) == s.elapsed(times[n - 1]));
    lemma_failing_criterion_resets(before, observations[n - 1], times[n - 1]);
}

/// Once the verdict is pass, fail or timed out, evaluating any observation at
/// any time leaves the whole state, the verdict included, as it is.
pub proof fn lemma_terminal_verdict_is_final(s: RunnerState, d: Observation, now: u64)
    requires
        s.verdict.is_terminal(),
    ensures
        s.evaluated(d, now) == s,
        s.evaluated(d, now).verdict == s.verdict,
{
}

/// An evaluation never leads back: from running the verdict stays running or
/// becomes final, and a runner that was not started stays so.
pub proof fn lemma_verdict_only_advances(s: RunnerState, d: Observation, now: u64)
    ensures
        s.verdict == TestVerdict::NotStarted ==> s.evaluated(d, now).verdict
            == TestVerdict::NotStarted,
        s.verdict == TestVerdict::Running ==> s.evaluated(d, now).verdict != TestVerdict::NotStarted,
{
}

/// An abort is immediate and sticks: afterwards the verdict is fail and no
/// evaluation changes it.
pub proof fn lemma_abort_is_sticky(s: RunnerState, d: Observation, now: u64)
    ensures
        s.aborted().verdict == TestVerdict::Fail,
        s.aborted().evaluated(d, now) == s.aborted(),
{
}

/// State machine of one acceptance test.
#[derive(Debug)]
pub struct TestRunner {
    pub criteria: TestCriteria,
    pub start_time: Option<u64>,
    pub first_fix_time: Option<u64>,
    pub stable_since: Option<u64>,
    pub verdict: TestVerdict,
    pub device_info: DeviceInfo,
    pub last_criteria_results: Vec<CriterionResult>,
    pub best_satellites: u32,
}

impl View for TestRunner {
    type V = RunnerState;

    open spec fn view(&self) -> RunnerState {
        RunnerState {
            criteria: self.criteria,
            device_info: self.device_info@,
            start_time: self.start_time,
            first_fix_time: self.first_fix_time,
            stable_since: self.stable_since,
            verdict: self.verdict,
            last_results: result_views(self.last_criteria_results@),
            best_satellites: self.best_satellites,
        }
    }
}

fn duration_since(earlier: u64, later: u64) -> (d: u64)
    ensures
        d == since(earlier, later),
{
    if later >= earlier {
        later - earlier
    } else {
        0
    }
}

fn at_least_text(min: u64) -> (text: String)
    ensures
        text@ == ">= "@ + decimal(min as nat),
{
    let mut text: String = String::from_str(">= ");
    append_decimal(&mut text, min);
    text
}

fn count_text(n: u64) -> (text: String)
    ensures
        text@ == decimal(n as nat),
{
    let mut text: String = String::new();
    append_decimal(&mut text, n);
    proof {
        assert(text@ =~= decimal(n as nat));
    }
    text
}

fn at_most_text(limit: i64) -> (text: String)
    ensures
        text@ == "<= "@ + one_decimal(limit as int),
{
    let mut text: String = String::from_str("<= ");
    append_one_decimal(&mut text, limit);
    text
}

fn optional_text(value: Option<i64>) -> (text: String)
    ensures
        text@ == optional_one_decimal(value),
{
    match value {
        Some(v) => {
            let mut text: String = String::new();
            append_one_decimal(&mut text, v);
            proof {
                assert(text@ =~= one_decimal(v as int));
            }
            text
        },
        None => String::from_str("-"),
    }
}

fn join_names(names: &Vec<String>) -> (text: String)
    ensures
        text@ == comma_joined(texts(names@)),
{
    let ghost views = texts(names@);
    let mut text: String = String::new();
    let mut i: usize = 0;
    while i < names.len()
        invariant
            i <= names@.len(),
            views == texts(names@),
            text@ == comma_joined(views.subrange(0, i as int)),
        decreases names@.len() - i,
    {
        proof {
            let next = views.subrange(0, i + 1);
            assert(next.drop_last() =~= views.subrange(0, i as int));
            assert(next.last() == names@[i as int]@);
            assert(next.len() == 1 ==> next[0] == names@[i as int]@);
        }
        if i > 0 {
            text.append(", ");
        }
        text.append(names[i].as_str());
        proof {
            if i == 0 {
                assert(text@ =~= names@[0]@);
            }
        }
        i += 1;
    }
    proof {
        assert(views.subrange(0, names@.len() as int) =~= views);
    }
    text
}

fn criterion(name: &str, passed: bool, expected: String, actual: String) -> (r: CriterionResult)
    ensures
        r@ == (CriterionView { name: name@, passed, expected: expected@, actual: actual@ }),
{
    CriterionResult { name: String::from_str(name), passed, expected, actual }
}

fn check_satellites(criteria: &TestCriteria, data: &GpsData) -> (r: CriterionResult)
    ensures
        r@ == satellite_criterion(*criteria, data@),
{
    let sat_count: u32 = match data.satellites {
        Some(n) => n,
        None => 0,
    };
    criterion(
        "Satellite Count",
        sat_count >= criteria.min_satellites,
        at_least_text(criteria.min_satellites as u64),
        count_text(sat_count as u64),
    )
}

fn check_dop(name: &str, value: Option<i64>, limit: i64) -> (r: CriterionResult)
    ensures
        r@ == dop_criterion(name@, value, limit),
{
    let passed: bool = match value {
        Some(v) => v <= limit,
        None => false,
    };
    criterion(name, passed, at_most_text(limit), optional_text(value))
}

fn check_snr(criteria: &TestCriteria, data: &GpsData, signal: &SignalSummary) -> (r:
    CriterionResult)
    requires
        signal.mean == mean_signal(data@.satellites_info),
    ensures
        r@ == snr_criterion(*criteria, data@),
{
    let mean: i64 = match signal.mean {
        Some(m) => m,
        None => 0,
    };
    let mut expected: String = String::from_str(">= ");
    append_one_decimal(&mut expected, criteria.min_avg_snr);
    expected.append(" dB");
    let mut actual: String = String::new();
    append_one_decimal(&mut actual, mean);
    actual.append(" dB");
    proof {
        assert(actual@ =~= one_decimal(mean as int) + " dB"@);
    }
    criterion("Average SNR", mean >= criteria.min_avg_snr, expected, actual)
}

fn check_strong(criteria: &TestCriteria, data: &GpsData, signal: &SignalSummary) -> (r:
    CriterionResult)
    requires
        signal.strong == strong_count(data@.satellites_info),
    ensures
        r@ == strong_criterion(*criteria, data@),
{
    criterion(
        "Strong Sats (SNR>=30)",
        signal.strong as u64 >= criteria.min_strong_satellites as u64,
        at_least_text(criteria.min_strong_satellites as u64),
        count_text(signal.strong as u64),
    )
}

fn check_constellations(criteria: &TestCriteria, data: &GpsData) -> (r: CriterionResult)
    ensures
        r@ == constellation_criterion(*criteria, data@),
{
    let in_view: ConstellationSet = ConstellationSet::from_satellites(&data.satellites_info);
    let names: Vec<String> = in_view.names();
    let mut actual: String = count_text(in_view.len() as u64);
    actual.append(" (");
    let joined: String = join_names(&names);
    actual.append(joined.as_str());
    actual.append(")");
    criterion(
        "Constellations",
        in_view.len() >= criteria.min_constellations,
        at_least_text(criteria.min_constellations as u64),
        actual,
    )
}

fn check_fix(criteria: &TestCriteria, data: &GpsData) -> (r: CriterionResult)
    ensures
        r@ == fix_criterion(*criteria, data@),
{
    let quality: u8 = match data.fix_quality {
        Some(q) => q,
        None => 0,
    };
    criterion(
        "Fix Quality",
        quality >= criteria.min_fix_quality,
        at_least_text(criteria.min_fix_quality as u64),
        count_text(quality as u64),
    )
}

fn check_ttff(criteria: &TestCriteria, fix_seen: bool, ttff: Option<u64>) -> (r: CriterionResult)
    ensures
        r@ == ttff_criterion(*criteria, fix_seen, ttff),
{
    let mut expected: String = String::from_str("<= ");
    append_decimal(&mut expected, criteria.max_ttff_seconds);
    expected.append("s");
    let actual: String = match ttff {
        Some(t) => {
            let mut text: String = String::new();
            append_one_decimal_unsigned(&mut text, t);
            text.append("s");
            proof {
                assert(text@ =~= one_decimal(t as int) + "s"@);
            }
            text
        },
        None => String::from_str("Waiting..."),
    };
    criterion("Time to First Fix", fix_seen, expected, actual)
}

/// Evaluates the eight criteria against `data`.
pub fn evaluate_criteria(
    criteria: &TestCriteria,
    data: &GpsData,
    fix_seen: bool,
    ttff: Option<u64>,
) -> (results: Vec<CriterionResult>)
    ensures
        result_views(results@) == criterion_views(*criteria, data@, fix_seen, ttff),
{
    let signal: SignalSummary = summarize_signal(&data.satellites_info);
    let mut results: Vec<CriterionResult> = Vec::new();
    results.push(check_satellites(criteria, data));
    results.push(check_dop("HDOP", data.hdop, criteria.max_hdop));
    results.push(check_dop("PDOP", data.pdop, criteria.max_pdop));
    results.push(check_snr(criteria, data, &signal));
    results.push(check_strong(criteria, data, &signal));
    results.push(check_constellations(criteria, data));
    results.push(check_fix(criteria, data));
    results.push(check_ttff(criteria, fix_seen, ttff));
    proof {
        assert(result_views(results@) =~= criterion_views(*criteria, data@, fix_seen, ttff));
    }
    results
}

impl TestRunner {
    /// A runner for `criteria` and `device_info` that has not been started.
    pub fn new(criteria: TestCriteria, device_info: DeviceInfo) -> (runner: TestRunner)
        ensures
            runner@ == RunnerState::fresh(criteria, device_info@),
    {
        let runner = TestRunner {
            criteria,
            start_time: None,
            first_fix_time: None,
            stable_since: None,
            verdict: TestVerdict::NotStarted,
            device_info,
            last_criteria_results: Vec::new(),
            best_satellites: 0,
        };
        proof {
            assert(result_views(runner.last_criteria_results@) =~= Seq::empty());
        }
        runner
    }

    /// Starts, or restarts, the test at clock reading `now`.
    pub fn start(&mut self, now: u64)
        ensures
            final(self)@ == old(self)@.started(now),
    {
        self.start_time = Some(now);
        self.first_fix_time = None;
        self.stable_since = None;
        self.verdict = TestVerdict::Running;
        self.last_criteria_results.clear();
        self.best_satellites = 0;
        proof {
            assert(result_views(self.last_criteria_results@) =~= Seq::empty());
        }
    }

    /// Milliseconds since the start, zero before the first start.
    pub fn elapsed_seconds(&self, now: u64) -> (ms: u64)
        ensures
            ms == self@.elapsed(now),
    {
        match self.start_time {
            Some(start) => duration_since(start, now),
            None => 0,
        }
    }

    /// Milliseconds from the start to the first fix; none before the first
    /// fix.
    pub fn ttff_seconds(&self) -> (ms: Option<u64>)
        ensures
            ms == self@.ttff(),
    {
        match (self.start_time, self.first_fix_time) {
            (Some(start), Some(fix)) => Some(duration_since(start, fix)),
            _ => None,
        }
    }

    /// Evaluates `data` at clock reading `now` and advances the state
    /// machine. Returns the criterion results of this evaluation, or the last
    /// ones when the runner is not running.
    pub fn evaluate(&mut self, data: &GpsData, now: u64) -> (results: Vec<CriterionResult>)
        ensures
            final(self)@ == old(self)@.evaluated(data@, now),
            result_views(results@) == final(self)@.last_results,
    {
        if self.verdict != TestVerdict::Running {
            return clone_results(&self.last_criteria_results);
        }
        let elapsed: u64 = self.elapsed_seconds(now);
        let quality: u8 = match data.fix_quality {
            Some(q) => q,
            None => 0,
        };
        if quality >= self.criteria.min_fix_quality && self.first_fix_time.is_none() {
            self.first_fix_time = Some(now);
        }
        let sat_count: u32 = match data.satellites {
            Some(n) => n,
            None => 0,
        };
        if sat_count > self.best_satellites {
            self.best_satellites = sat_count;
        }
        let ttff: Option<u64> = self.ttff_seconds();
        let results: Vec<CriterionResult> = evaluate_criteria(
            &self.criteria,
            data,
            self.first_fix_time.is_some(),
            ttff,
        );
        let all_pass: bool = all_pass(&results);
        if all_pass {
            let stable_start: u64 = match self.stable_since {
                Some(t) => t,
                None => {
                    self.stable_since = Some(now);
                    now
                },
            };
            if duration_since(stable_start, now) as u128
                >= self.criteria.stability_duration_seconds as u128 * 1000 {
                self.verdict = TestVerdict::Pass;
            }
        } else {
            self.stable_since = None;
        }
        let total: u128 = (3 * (self.criteria.max_ttff_seconds as u128)
            + self.criteria.stability_duration_seconds as u128) * 1000;
        if elapsed as u128 > total {
            if self.first_fix_time.is_none() {
                self.verdict = TestVerdict::TimedOut;
            } else {
                self.verdict = TestVerdict::Fail;
            }
        }
        self.last_criteria_results = clone_results(&results);
        results
    }

    /// Snapshot of the test at clock reading `now`, stamped with `timestamp`.
    pub fn result_at(&self, gps_data: Option<&GpsData>, now: u64, timestamp: String) -> (result:
        TestResult)
        ensures
            result@ == (ResultView {
                verdict: self.verdict,
                criteria_results: self@.last_results,
                ttff_seconds: self@.ttff(),
                test_duration_seconds: self@.elapsed(now),
                device_info: self@.device_info,
                timestamp: timestamp@,
                best_gps_data: match gps_data {
                    Some(d) => Some(d@),
                    None => None,
                },
            }),
    {
        TestResult {
            verdict: self.verdict,
            criteria_results: clone_results(&self.last_criteria_results),
            ttff_seconds: self.ttff_seconds(),
            test_duration_seconds: self.elapsed_seconds(now),
            device_info: self.device_info.clone(),
            timestamp,
            best_gps_data: match gps_data {
                Some(d) => Some(d.duplicate()),
                None => None,
            },
        }
    }

    /// Snapshot of the test at clock reading `now`, stamped with the current
    /// UTC time. Everything but the stamp is determined by the runner and the
    /// arguments.
    pub fn get_result(&self, gps_data: Option<&GpsData>, now: u64) -> (result: TestResult)
        ensures
            result@ == (ResultView {
                verdict: self.verdict,
                criteria_results: self@.last_results,
                ttff_seconds: self@.ttff(),
                test_duration_seconds: self@.elapsed(now),
                device_info: self@.device_info,
                timestamp: result.timestamp@,
                best_gps_data: match gps_data {
                    Some(d) => Some(d@),
                    None => None,
                },
            }),
    {
        self.result_at(gps_data, now, utc_timestamp())
    }

    /// Aborts the test: the verdict becomes fail at once.
    pub fn abort(&mut self)
        ensures
            final(self)@ == old(self)@.aborted(),
    {
        self.verdict = TestVerdict::Fail;
    }
}

fn all_pass(results: &Vec<CriterionResult>) -> (b: bool)
    ensures
        b == all_passed(result_views(results@)),
{
    let mut i: usize = 0;
    while i < results.len()
        invariant
            i <= results@.len(),
            forall|j: int| 0 <= j < i ==> (#[trigger] result_views(results@)[j]).passed,
        decreases results@.len() - i,
    {
        if !results[i].passed {
            assert(!result_views(results@)[i as int].passed);
            return false;
        }
        i += 1;
    }
    true
}

} // verus!
