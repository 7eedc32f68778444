//! Before/after optimisation: identify the receiver, sample a baseline, apply
//! the marine profile, wait, sample again and report the difference.
//!
//! Like the acceptance test, the controller keeps no clock: operations that
//! depend on time take the reading of a monotonic clock in milliseconds.

use crate::clock::utc_timestamp;
use crate::metrics::{mean_signal, summarize_signal, ConstellationSet, SignalSummary};
use crate::nmea::{GpsData, Observation};
use crate::test_criteria::since;
use crate::text::{clone_text, clone_texts, text_of, texts};
use crate::ubx_config::{
    build_mon_ver_poll, chip_view_of, frames, get_optimization_commands, mon_ver_identity,
    optimization_frames, parse_mon_ver, profile_name, profile_name_of, ubx_frame, ChipView,
    UbloxChipInfo, UbloxSeries, UbxFrame, UBX_CLASS_MON, UBX_MON_VER,
};
use vstd::arithmetic::div_mod::{lemma_fundamental_div_mod, lemma_fundamental_div_mod_converse};
use vstd::prelude::*;
use vstd::string::*;

verus! {

/// Time allowed for the MON-VER reply, in milliseconds.
pub const MON_VER_TIMEOUT: u64 = 5000;

/// Length of the baseline sampling window, in milliseconds.
pub const BASELINE_DURATION: u64 = 30000;

/// Time given to the receiver to settle after the profile was applied.
pub const STABILIZATION_DURATION: u64 = 30000;

/// Length of the result sampling window, in milliseconds.
pub const RESULT_DURATION: u64 = 30000;

/// Nominal length of the apply phase shown to the user, in milliseconds.
pub const APPLY_DURATION: u64 = 3000;

/// Phase of an optimisation run.
#[derive(Debug, Clone, Copy, PartialEq, Eq, Structural)]
pub enum OptimizePhase {
    Idle,
    IdentifyingChip,
    CollectingBaseline,
    ApplyingProfile,
    Stabilizing,
    CollectingResult,
    Complete,
    Error,
}

/// Sum of the samples.
pub open spec fn total(samples: Seq<i64>) -> int
    decreases samples.len(),
{
    if samples.len() == 0 {
        0
    } else {
        total(samples.drop_last()) + samples.last()
    }
}

/// Mean of the samples, rounded down; zero when there is none.
pub open spec fn mean(samples: Seq<i64>) -> i64 {
    if samples.len() == 0 {
        0
    } else {
        (total(samples) / (samples.len() as int)) as i64
    }
}

/// Union of all sets of the list.
pub open spec fn union_all(sets: Seq<ConstellationSet>) -> ConstellationSet
    decreases sets.len(),
{
    if sets.len() == 0 {
        ConstellationSet::none()
    } else {
        union_all(sets.drop_last()).joined(sets.last())
    }
}

/// The sum of `n` samples lies between `n` times the least and `n` times the
/// greatest value a sample can have.
pub proof fn lemma_total_bounds(samples: Seq<i64>)
    ensures
        samples.len() * (-0x8000_0000_0000_0000) <= total(samples) <= samples.len()
            * 0x7fff_ffff_ffff_ffff,
    decreases samples.len(),
{
    if samples.len() > 0 {
        lemma_total_bounds(samples.drop_last());
    }
}

/// `value` limited to the range of `i64`.
pub open spec fn clamp_i64(value: int) -> i64 {
    if value > 0x7fff_ffff_ffff_ffff {
        0x7fff_ffff_ffff_ffff
    } else if value < -0x8000_0000_0000_0000 {
        (-0x8000_0000_0000_0000) as i64
    } else {
        value as i64
    }
}

/// Relative gain in thousandths of a percent: `gain / before * 100`, rounded
/// down and limited to the range of `i64`. Zero unless `before` is positive.
pub open spec fn improvement(before: i64, gain: int) -> i64 {
    if before > 0 {
        clamp_i64(gain * 100000 / (before as int))
    } else {
        0
    }
}

fn floor_div(a: i128, n: i128) -> (q: i128)
    requires
        n > 0,
        a > -0x7fff_ffff_ffff_ffff_ffff_ffff_ffff_ffff,
    ensures
        q == a / n,
{
    if a >= 0 {
        a / n
    } else {
        let m: i128 = -a;
        let q: i128 = m / n;
        let r: i128 = m % n;
        proof {
            lemma_fundamental_div_mod(m as int, n as int);
            assert(m == q * n + r) by (nonlinear_arith)
                requires
                    m == n * q + r,
            ;
        }
        if r == 0 {
            proof {
                assert(a == (-q) * n + 0) by (nonlinear_arith)
                    requires
                        m == q * n + r,
                        r == 0,
                        a == -m,
                ;
                lemma_fundamental_div_mod_converse(a as int, n as int, -q as int, 0);
            }
            -q
        } else {
            proof {
                assert(a == (-q - 1) * n + (n - r)) by (nonlinear_arith)
                    requires
                        m == q * n + r,
                        a == -m,
                ;
                lemma_fundamental_div_mod_converse(
                    a as int,
                    n as int,
                    (-q - 1) as int,
                    (n - r) as int,
                );
            }
            -q - 1
        }
    }
}

fn mean_of(samples: &Vec<i64>) -> (m: i64)
    ensures
        m == mean(samples@),
{
    if samples.len() == 0 {
        return 0;
    }
    let mut sum: i128 = 0;
    let mut i: usize = 0;
    while i < samples.len()
        invariant
            i <= samples@.len(),
            sum == total(samples@.subrange(0, i as int)),
        decreases samples@.len() - i,
    {
        proof {
            let next = samples@.subrange(0, i + 1);
            assert(next.drop_last() =~= samples@.subrange(0, i as int));
            lemma_total_bounds(samples@.subrange(0, i as int));
            lemma_total_bounds(next);
        }
        sum = sum + samples[i] as i128;
        i += 1;
    }
    proof {
        assert(samples@.subrange(0, samples@.len() as int) =~= samples@);
        lemma_total_bounds(samples@);
        let n = samples@.len() as int;
        let t = total(samples@);
        assert(-0x8000_0000_0000_0000 <= t / n <= 0x7fff_ffff_ffff_ffff) by (nonlinear_arith)
            requires
                n > 0,
                n * (-0x8000_0000_0000_0000) <= t <= n * 0x7fff_ffff_ffff_ffff,
        ;
    }
    let q: i128 = floor_div(sum, samples.len() as i128);
    q as i64
}

fn improvement_of(before: i64, gain: i128) -> (pct: i64)
    requires
        -0x1_0000_0000_0000_0000 <= gain <= 0x1_0000_0000_0000_0000,
    ensures
        pct == improvement(before, gain as int),
{
    if before > 0 {
        let q: i128 = floor_div(gain * 100000, before as i128);
        if q > 0x7fff_ffff_ffff_ffff {
            0x7fff_ffff_ffff_ffff
        } else if q < -0x8000_0000_0000_0000 {
            -0x8000_0000_0000_0000
        } else {
            q as i64
        }
    } else {
        0
    }
}

/// Averaged performance over a sampling window. Averages are in
/// thousandths.
#[derive(Debug)]
pub struct PerformanceSnapshot {
    pub avg_hdop: i64,
    pub avg_satellites: i64,
    pub avg_snr: i64,
    pub constellation_count: u32,
    pub constellations: Vec<String>,
    pub avg_fix_quality: i64,
    pub sample_count: u64,
}

/// Mathematical value of a `PerformanceSnapshot`.
pub ghost struct SnapshotView {
    pub avg_hdop: i64,
    pub avg_satellites: i64,
    pub avg_snr: i64,
    pub constellation_count: u32,
    pub constellations: Seq<Seq<char>>,
    pub avg_fix_quality: i64,
    pub sample_count: u64,
}

impl SnapshotView {
    /// The snapshot of an empty window.
    pub open spec fn zero() -> SnapshotView {
        SnapshotView {
            avg_hdop: 0,
            avg_satellites: 0,
            avg_snr: 0,
            constellation_count: 0,
            constellations: Seq::empty(),
            avg_fix_quality: 0,
            sample_count: 0,
        }
    }
}

impl View for PerformanceSnapshot {
    type V = SnapshotView;

    open spec fn view(&self) -> SnapshotView {
        SnapshotView {
            avg_hdop: self.avg_hdop,
            avg_satellites: self.avg_satellites,
            avg_snr: self.avg_snr,
            constellation_count: self.constellation_count,
            constellations: texts(self.constellations@),
            avg_fix_quality: self.avg_fix_quality,
            sample_count: self.sample_count,
        }
    }
}

impl Clone for PerformanceSnapshot {
    fn clone(&self) -> (copy: PerformanceSnapshot)
        ensures
            copy@ == self@,
    {
        PerformanceSnapshot {
            avg_hdop: self.avg_hdop,
            avg_satellites: self.avg_satellites,
            avg_snr: self.avg_snr,
            constellation_count: self.constellation_count,
            constellations: clone_texts(&self.constellations),
            avg_fix_quality: self.avg_fix_quality,
            sample_count: self.sample_count,
        }
    }
}

impl Default for PerformanceSnapshot {
    fn default() -> (snapshot: PerformanceSnapshot)
        ensures
            snapshot@ == SnapshotView::zero(),
    {
        let snapshot = PerformanceSnapshot {
            avg_hdop: 0,
            avg_satellites: 0,
            avg_snr: 0,
            constellation_count: 0,
            constellations: Vec::new(),
            avg_fix_quality: 0,
            sample_count: 0,
        };
        proof {
            assert(texts(snapshot.constellations@) =~= Seq::empty());
        }
        snapshot
    }
}

/// The value of an optional snapshot.
pub open spec fn snapshot_view_of(snapshot: Option<PerformanceSnapshot>) -> Option<SnapshotView> {
    match snapshot {
        Some(s) => Some(s@),
        None => None,
    }
}

/// Samples of one window. Satellite counts and fix qualities are kept in
/// thousandths like the other quantities.
#[derive(Debug)]
pub struct MetricsCollector {
    pub hdop_samples: Vec<i64>,
    pub satellite_samples: Vec<i64>,
    pub snr_samples: Vec<i64>,
    pub fix_quality_samples: Vec<i64>,
    pub constellation_sets: Vec<ConstellationSet>,
}

/// Mathematical value of a `MetricsCollector`.
pub ghost struct CollectorView {
    pub hdop_samples: Seq<i64>,
    pub satellite_samples: Seq<i64>,
    pub snr_samples: Seq<i64>,
    pub fix_quality_samples: Seq<i64>,
    pub constellation_sets: Seq<ConstellationSet>,
}

impl CollectorView {
    /// The collector without samples.
    pub open spec fn empty() -> CollectorView {
        CollectorView {
            hdop_samples: Seq::empty(),
            satellite_samples: Seq::empty(),
            snr_samples: Seq::empty(),
            fix_quality_samples: Seq::empty(),
            constellation_sets: Seq::empty(),
        }
    }

    /// The collector after sampling observation `d`: each quantity that the
    /// observation holds adds one sample; the SNR sample is the mean over the
    /// satellites with a signal, and the constellations in view are recorded
    /// when there are any.
    pub open spec fn added(self, d: Observation) -> CollectorView {
        CollectorView {
            hdop_samples: match d.hdop {
                Some(h) => self.hdop_samples.push(h),
                None => self.hdop_samples,
            },
            satellite_samples: match d.satellites {
                Some(n) => self.satellite_samples.push((n * 1000) as i64),
                None => self.satellite_samples,
            },
            snr_samples: match mean_signal(d.satellites_info) {
                Some(m) => self.snr_samples.push(m),
                None => self.snr_samples,
            },
            fix_quality_samples: match d.fix_quality {
                Some(q) => self.fix_quality_samples.push((q * 1000) as i64),
                None => self.fix_quality_samples,
            },
            constellation_sets: if d.satellites_info.len() > 0 {
                self.constellation_sets.push(ConstellationSet::of(d.satellites_info))
            } else {
                self.constellation_sets
            },
        }
    }

    /// The larger of the numbers of HDOP and of satellite samples.
    pub open spec fn sample_count(self) -> nat {
        if self.hdop_samples.len() >= self.satellite_samples.len() {
            self.hdop_samples.len()
        } else {
            self.satellite_samples.len()
        }
    }

    /// The averages over the window: each quantity on its own, the
    /// constellations as the union over all samples, sorted by name.
    pub open spec fn snapshot(self) -> SnapshotView {
        SnapshotView {
            avg_hdop: mean(self.hdop_samples),
            avg_satellites: mean(self.satellite_samples),
            avg_snr: mean(self.snr_samples),
            constellation_count: union_all(self.constellation_sets).size() as u32,
            constellations: union_all(self.constellation_sets).names_of(),
            avg_fix_quality: mean(self.fix_quality_samples),
            sample_count: self.sample_count() as u64,
        }
    }
}

impl View for MetricsCollector {
    type V = CollectorView;

    open spec fn view(&self) -> CollectorView {
        CollectorView {
            hdop_samples: self.hdop_samples@,
            satellite_samples: self.satellite_samples@,
            snr_samples: self.snr_samples@,
            fix_quality_samples: self.fix_quality_samples@,
            constellation_sets: self.constellation_sets@,
        }
    }
}

fn union_of(sets: &Vec<ConstellationSet>) -> (all: ConstellationSet)
    ensures
        all == union_all(sets@),
{
    let mut all: ConstellationSet = ConstellationSet::new();
    let mut i: usize = 0;
    while i < sets.len()
        invariant
            i <= sets@.len(),
            all == union_all(sets@.subrange(0, i as int)),
        decreases sets@.len() - i,
    {
        proof {
            let next = sets@.subrange(0, i + 1);
            assert(next.drop_last() =~= sets@.subrange(0, i as int));
        }
        all = all.union(&sets[i]);
        i += 1;
    }
    proof {
        assert(sets@.subrange(0, sets@.len() as int) =~= sets@);
    }
    all
}

impl MetricsCollector {
    /// A collector without samples.
    pub fn new() -> (collector: MetricsCollector)
        ensures
            collector@ == CollectorView::empty(),
    {
        MetricsCollector {
            hdop_samples: Vec::new(),
            satellite_samples: Vec::new(),
            snr_samples: Vec::new(),
            fix_quality_samples: Vec::new(),
            constellation_sets: Vec::new(),
        }
    }

    /// Samples one observation.
    pub fn add_sample(&mut self, data: &GpsData)
        ensures
            final(self)@ == old(self)@.added(data@),
    {
        match data.hdop {
            Some(hdop) => self.hdop_samples.push(hdop),
            None => {},
        }
        match data.satellites {
            Some(sats) => self.satellite_samples.push(sats as i64 * 1000),
            None => {},
        }
        match data.fix_quality {
            Some(fq) => self.fix_quality_samples.push(fq as i64 * 1000),
            None => {},
        }
        let signal: SignalSummary = summarize_signal(&data.satellites_info);
        match signal.mean {
            Some(mean) => self.snr_samples.push(mean),
            None => {},
        }
        if data.satellites_info.len() > 0 {
            self.constellation_sets.push(ConstellationSet::from_satellites(&data.satellites_info));
        }
    }

    /// The averages over everything sampled so far.
    pub fn snapshot(&self) -> (snapshot: PerformanceSnapshot)
        ensures
            snapshot@ == self@.snapshot(),
    {
        let all: ConstellationSet = union_of(&self.constellation_sets);
        let hdop_count: usize = self.hdop_samples.len();
        let sat_count: usize = self.satellite_samples.len();
        PerformanceSnapshot {
            avg_hdop: mean_of(&self.hdop_samples),
            avg_satellites: mean_of(&self.satellite_samples),
            avg_snr: mean_of(&self.snr_samples),
            constellation_count: all.len(),
            constellations: all.names(),
            avg_fix_quality: mean_of(&self.fix_quality_samples),
            sample_count: if hdop_count >= sat_count {
                hdop_count as u64
            } else {
                sat_count as u64
            },
        }
    }
}

/// Before/after comparison. Improvements are in thousandths of a percent.
#[derive(Debug)]
pub struct OptimizationReport {
    pub chip_info: UbloxChipInfo,
    pub profile_applied: String,
    pub before: PerformanceSnapshot,
    pub after: PerformanceSnapshot,
    pub hdop_improvement_pct: i64,
    pub satellite_improvement_pct: i64,
    pub snr_improvement_pct: i64,
    pub constellation_improvement: i64,
    pub timestamp: String,
}

/// Mathematical value of an `OptimizationReport`.
pub ghost struct ReportView {
    pub chip_info: ChipView,
    pub profile_applied: Seq<char>,
    pub before: SnapshotView,
    pub after: SnapshotView,
    pub hdop_improvement_pct: i64,
    pub satellite_improvement_pct: i64,
    pub snr_improvement_pct: i64,
    pub constellation_improvement: i64,
    pub timestamp: Seq<char>,
}

impl View for OptimizationReport {
    type V = ReportView;

    open spec fn view(&self) -> ReportView {
        ReportView {
            chip_info: self.chip_info@,
            profile_applied: self.profile_applied@,
            before: self.before@,
            after: self.after@,
            hdop_improvement_pct: self.hdop_improvement_pct,
            satellite_improvement_pct: self.satellite_improvement_pct,
            snr_improvement_pct: self.snr_improvement_pct,
            constellation_improvement: self.constellation_improvement,
            timestamp: self.timestamp@,
        }
    }
}

impl Clone for OptimizationReport {
    fn clone(&self) -> (copy: OptimizationReport)
        ensures
            copy@ == self@,
    {
        OptimizationReport {
            chip_info: self.chip_info.clone(),
            profile_applied: self.profile_applied.clone(),
            before: self.before.clone(),
            after: self.after.clone(),
            hdop_improvement_pct: self.hdop_improvement_pct,
            satellite_improvement_pct: self.satellite_improvement_pct,
            snr_improvement_pct: self.snr_improvement_pct,
            constellation_improvement: self.constellation_improvement,
            timestamp: self.timestamp.clone(),
        }
    }
}

/// The value of an optional report.
pub open spec fn report_view_of(report: Option<OptimizationReport>) -> Option<ReportView> {
    match report {
        Some(r) => Some(r@),
        None => None,
    }
}

/// The identity that stands in a report when the receiver was never
/// identified.
pub open spec fn unknown_chip() -> ChipView {
    ChipView {
        sw_version: "Unknown"@,
        hw_version: "Unknown"@,
        extensions: Seq::empty(),
        series: UbloxSeries::Unknown,
        chip_name: "Unknown"@,
    }
}

/// The series of an optional identity, unknown without one.
pub open spec fn series_or_unknown(chip: Option<ChipView>) -> UbloxSeries {
    match chip {
        Some(c) => c.series,
        None => UbloxSeries::Unknown,
    }
}

/// The report that compares `before` with `after`. A drop in HDOP counts as
/// an improvement, as does a rise in satellites and in SNR; where the value
/// before is zero the improvement is zero.
pub open spec fn report_of(
    chip: Option<ChipView>,
    before: SnapshotView,
    after: SnapshotView,
    timestamp: Seq<char>,
) -> ReportView {
    ReportView {
        chip_info: match chip {
            Some(c) => c,
            None => unknown_chip(),
        },
        profile_applied: profile_name_of(series_or_unknown(chip)),
        before,
        after,
        hdop_improvement_pct: improvement(before.avg_hdop, before.avg_hdop - after.avg_hdop),
        satellite_improvement_pct: improvement(
            before.avg_satellites,
            after.avg_satellites - before.avg_satellites,
        ),
        snr_improvement_pct: improvement(before.avg_snr, after.avg_snr - before.avg_snr),
        constellation_improvement: (after.constellation_count - before.constellation_count) as i64,
        timestamp,
    }
}

/// What the user is shown of a run. Times are in milliseconds.
#[derive(Debug)]
pub struct OptimizeStatus {
    pub phase: OptimizePhase,
    pub chip_info: Option<UbloxChipInfo>,
    pub progress_seconds: u64,
    pub phase_duration_seconds: u64,
    pub error: Option<String>,
    pub report: Option<OptimizationReport>,
    pub baseline_snapshot: Option<PerformanceSnapshot>,
}

/// Mathematical value of an `OptimizeStatus`.
pub ghost struct StatusView {
    pub phase: OptimizePhase,
    pub chip_info: Option<ChipView>,
    pub progress_seconds: u64,
    pub phase_duration_seconds: u64,
    pub error: Option<Seq<char>>,
    pub report: Option<ReportView>,
    pub baseline_snapshot: Option<SnapshotView>,
}

impl View for OptimizeStatus {
    type V = StatusView;

    open spec fn view(&self) -> StatusView {
        StatusView {
            phase: self.phase,
            chip_info: chip_view_of(self.chip_info),
            progress_seconds: self.progress_seconds,
            phase_duration_seconds: self.phase_duration_seconds,
            error: text_of(self.error),
            report: report_view_of(self.report),
            baseline_snapshot: snapshot_view_of(self.baseline_snapshot),
        }
    }
}

/// Nominal length of a phase in milliseconds, zero for the phases that have
/// none.
pub open spec fn phase_duration(phase: OptimizePhase) -> u64 {
    match phase {
        OptimizePhase::IdentifyingChip => MON_VER_TIMEOUT,
        OptimizePhase::CollectingBaseline => BASELINE_DURATION,
        OptimizePhase::ApplyingProfile => APPLY_DURATION,
        OptimizePhase::Stabilizing => STABILIZATION_DURATION,
        OptimizePhase::CollectingResult => RESULT_DURATION,
        _ => 0,
    }
}

/// The phase runs against the clock.
pub open spec fn is_timed(phase: OptimizePhase) -> bool {
    phase == OptimizePhase::IdentifyingChip || phase == OptimizePhase::CollectingBaseline || phase
        == OptimizePhase::ApplyingProfile || phase == OptimizePhase::Stabilizing || phase
        == OptimizePhase::CollectingResult
}

/// Mathematical state of the controller.
pub ghost struct OptimizerState {
    pub phase: OptimizePhase,
    pub chip_info: Option<ChipView>,
    pub phase_start: Option<u64>,
    pub baseline_collector: CollectorView,
    pub result_collector: CollectorView,
    pub baseline_snapshot: Option<SnapshotView>,
    pub report: Option<ReportView>,
    pub error: Option<Seq<char>>,
    pub pending_commands: Seq<Seq<u8>>,
    pub awaiting_mon_ver: bool,
}

impl OptimizerState {
    /// The idle controller.
    pub open spec fn idle() -> OptimizerState {
        OptimizerState {
            phase: OptimizePhase::Idle,
            chip_info: None,
            phase_start: None,
            baseline_collector: CollectorView::empty(),
            result_collector: CollectorView::empty(),
            baseline_snapshot: None,
            report: None,
            error: None,
            pending_commands: Seq::empty(),
            awaiting_mon_ver: false,
        }
    }

    /// The state right after a start at clock reading `now`: everything is
    /// cleared, a MON-VER poll is queued and its reply awaited.
    pub open spec fn started(now: u64) -> OptimizerState {
        OptimizerState {
            phase: OptimizePhase::IdentifyingChip,
            phase_start: Some(now),
            pending_commands: seq![ubx_frame(UBX_CLASS_MON, UBX_MON_VER, Seq::empty())],
            awaiting_mon_ver: true,
            ..OptimizerState::idle()
        }
    }

    /// The state after a MON-VER reply with `payload` arrived at `now`: a
    /// payload that carries an identity starts the baseline, any other ends
    /// the run in error.
    pub open spec fn identified(self, payload: Seq<u8>, now: u64) -> OptimizerState {
        match mon_ver_identity(payload) {
            Some(chip) => OptimizerState {
                awaiting_mon_ver: false,
                chip_info: Some(chip),
                phase: OptimizePhase::CollectingBaseline,
                phase_start: Some(now),
                ..self
            },
            None => OptimizerState {
                awaiting_mon_ver: false,
                error: Some("Failed to parse MON-VER response"@),
                phase: OptimizePhase::Error,
                ..self
            },
        }
    }

    /// Milliseconds since the current phase began.
    pub open spec fn phase_elapsed(self, now: u64) -> u64 {
        match self.phase_start {
            Some(start) => since(start, now),
            None => 0,
        }
    }

    /// The state after one poll cycle with observation `d` at clock reading
    /// `now`. `timestamp` stamps the report if this cycle completes the run.
    pub open spec fn ticked(self, d: Observation, now: u64, timestamp: Seq<char>) -> OptimizerState {
        let elapsed = self.phase_elapsed(now);
        match self.phase {
            OptimizePhase::IdentifyingChip => if elapsed >= MON_VER_TIMEOUT
                && self.awaiting_mon_ver {
                OptimizerState {
                    awaiting_mon_ver: false,
                    error: Some(
                        "Could not identify chip — device may not be u-blox or UBX protocol is disabled"@,
                    ),
                    phase: OptimizePhase::Error,
                    ..self
                }
            } else {
                self
            },
            OptimizePhase::CollectingBaseline => {
                let collector = self.baseline_collector.added(d);
                if elapsed >= BASELINE_DURATION {
                    OptimizerState {
                        baseline_collector: collector,
                        baseline_snapshot: Some(collector.snapshot()),
                        pending_commands: optimization_frames(series_or_unknown(self.chip_info)),
                        phase: OptimizePhase::ApplyingProfile,
                        phase_start: Some(now),
                        ..self
                    }
                } else {
                    OptimizerState { baseline_collector: collector, ..self }
                }
            },
            OptimizePhase::ApplyingProfile => if self.pending_commands.len() == 0 {
                OptimizerState {
                    phase: OptimizePhase::Stabilizing,
                    phase_start: Some(now),
                    ..self
                }
            } else {
                self
            },
            OptimizePhase::Stabilizing => if elapsed >= STABILIZATION_DURATION {
                OptimizerState {
                    phase: OptimizePhase::CollectingResult,
                    phase_start: Some(now),
                    ..self
                }
            } else {
                self
            },
            OptimizePhase::CollectingResult => {
                let collector = self.result_collector.added(d);
                if elapsed >= RESULT_DURATION {
                    OptimizerState {
                        result_collector: collector,
                        report: Some(
                            report_of(
                                self.chip_info,
                                match self.baseline_snapshot {
                                    Some(b) => b,
                                    None => SnapshotView::zero(),
                                },
                                collector.snapshot(),
                                timestamp,
                            ),
                        ),
                        phase: OptimizePhase::Complete,
                        ..self
                    }
                } else {
                    OptimizerState { result_collector: collector, ..self }
                }
            },
            _ => self,
        }
    }

    /// This cycle completes the run and so builds the report.
    pub open spec fn completes(self, now: u64) -> bool {
        self.phase == OptimizePhase::CollectingResult && self.phase_elapsed(now) >= RESULT_DURATION
    }

    /// What the user is shown at clock reading `now`.
    pub open spec fn status(self, now: u64) -> StatusView {
        StatusView {
            phase: self.phase,
            chip_info: self.chip_info,
            progress_seconds: if is_timed(self.phase) {
                self.phase_elapsed(now)
            } else {
                0
            },
            phase_duration_seconds: phase_duration(self.phase),
            error: self.error,
            report: self.report,
            baseline_snapshot: self.baseline_snapshot,
        }
    }
}

/// The command list that is queued for the apply phase ends, for every
/// identity, with the CFG-CFG save command, and holds at least ten commands.
pub proof fn lemma_profile_is_queued_with_save_last(
    s: OptimizerState,
    d: Observation,
    now: u64,
    timestamp: Seq<char>,
)
    requires
        s.phase == OptimizePhase::CollectingBaseline,
        s.ticked(d, now, timestamp).phase == OptimizePhase::ApplyingProfile,
    ensures
        s.ticked(d, now, timestamp).pending_commands.len() >= 10,
        s.ticked(d, now, timestamp).pending_commands.last()[2] == 0x06,
        s.ticked(d, now, timestamp).pending_commands.last()[3] == 0x09,
{
    crate::ubx_config::lemma_optimization_commands_end_with_save(series_or_unknown(s.chip_info));
}

/// Controller of one optimisation run.
#[derive(Debug)]
pub struct UbxOptimizer {
    pub phase: OptimizePhase,
    pub chip_info: Option<UbloxChipInfo>,
    pub phase_start: Option<u64>,
    pub baseline_collector: MetricsCollector,
    pub result_collector: MetricsCollector,
    pub baseline_snapshot: Option<PerformanceSnapshot>,
    pub report: Option<OptimizationReport>,
    pub error: Option<String>,
    /// Frames waiting to be written to the receiver, first one first.
    pub pending_commands: Vec<Vec<u8>>,
    /// True while the MON-VER reply is outstanding.
    pub awaiting_mon_ver: bool,
}

impl View for UbxOptimizer {
    type V = OptimizerState;

    open spec fn view(&self) -> OptimizerState {
        OptimizerState {
            phase: self.phase,
            chip_info: chip_view_of(self.chip_info),
            phase_start: self.phase_start,
            baseline_collector: self.baseline_collector@,
            result_collector: self.result_collector@,
            baseline_snapshot: snapshot_view_of(self.baseline_snapshot),
            report: report_view_of(self.report),
            error: text_of(self.error),
            pending_commands: frames(self.pending_commands@),
            awaiting_mon_ver: self.awaiting_mon_ver,
        }
    }
}

fn clone_chip(chip: &Option<UbloxChipInfo>) -> (copy: Option<UbloxChipInfo>)
    ensures
        chip_view_of(copy) == chip_view_of(*chip),
{
    match chip {
        Some(c) => Some(c.clone()),
        None => None,
    }
}

fn clone_snapshot(snapshot: &Option<PerformanceSnapshot>) -> (copy: Option<PerformanceSnapshot>)
    ensures
        snapshot_view_of(copy) == snapshot_view_of(*snapshot),
{
    match snapshot {
        Some(s) => Some(s.clone()),
        None => None,
    }
}

fn clone_report(report: &Option<OptimizationReport>) -> (copy: Option<OptimizationReport>)
    ensures
        report_view_of(copy) == report_view_of(*report),
{
    match report {
        Some(r) => Some(r.clone()),
        None => None,
    }
}

impl UbxOptimizer {
    /// An idle controller.
    pub fn new() -> (optimizer: UbxOptimizer)
        ensures
            optimizer@ == OptimizerState::idle(),
    {
        let optimizer = UbxOptimizer {
            phase: OptimizePhase::Idle,
            chip_info: None,
            phase_start: None,
            baseline_collector: MetricsCollector::new(),
            result_collector: MetricsCollector::new(),
            baseline_snapshot: None,
            report: None,
            error: None,
            pending_commands: Vec::new(),
            awaiting_mon_ver: false,
        };
        proof {
            assert(frames(optimizer.pending_commands@) =~= Seq::empty());
        }
        optimizer
    }

    /// Begins a run at clock reading `now`.
    pub fn start(&mut self, now: u64)
        ensures
            final(self)@ == OptimizerState::started(now),
    {
        *self = UbxOptimizer::new();
        self.phase = OptimizePhase::IdentifyingChip;
        self.phase_start = Some(now);
        self.pending_commands.push(build_mon_ver_poll());
        self.awaiting_mon_ver = true;
        proof {
            assert(frames(self.pending_commands@) =~= seq![
                ubx_frame(UBX_CLASS_MON, UBX_MON_VER, Seq::empty()),
            ]);
        }
    }

    /// Takes the payload of a MON-VER reply that arrived at clock reading
    /// `now`.
    pub fn on_mon_ver_response(&mut self, payload: &[u8], now: u64)
        ensures
            final(self)@ == old(self)@.identified(payload@, now),
    {
        self.awaiting_mon_ver = false;
        match parse_mon_ver(payload) {
            Some(info) => {
                self.chip_info = Some(info);
                self.phase = OptimizePhase::CollectingBaseline;
                self.phase_start = Some(now);
            },
            None => {
                self.error = Some(String::from_str("Failed to parse MON-VER response"));
                self.phase = OptimizePhase::Error;
            },
        }
    }

    /// Takes a UBX frame that arrived at clock reading `now`. Only a MON-VER
    /// reply that is awaited is consumed; every other frame is discarded.
    pub fn on_frame(&mut self, frame: &UbxFrame, now: u64) -> (consumed: bool)
        ensures
            consumed == (old(self).awaiting_mon_ver && frame.class == UBX_CLASS_MON && frame.id
                == UBX_MON_VER),
            final(self)@ == if consumed {
                old(self)@.identified(frame.payload@, now)
            } else {
                old(self)@
            },
    {
        if self.awaiting_mon_ver && frame.class == UBX_CLASS_MON && frame.id == UBX_MON_VER {
            self.on_mon_ver_response(frame.payload.as_slice(), now);
            true
        } else {
            false
        }
    }

    /// Hands out the commands that wait to be sent, first one first, and
    /// leaves none waiting.
    pub fn take_pending_commands(&mut self) -> (commands: Vec<Vec<u8>>)
        ensures
            frames(commands@) == old(self)@.pending_commands,
            final(self)@ == (OptimizerState { pending_commands: Seq::empty(), ..old(self)@ }),
    {
        let mut commands: Vec<Vec<u8>> = Vec::new();
        core::mem::swap(&mut commands, &mut self.pending_commands);
        proof {
            assert(frames(self.pending_commands@) =~= Seq::empty());
        }
        commands
    }

    fn on_mon_ver_timeout(&mut self)
        ensures
            final(self)@ == (OptimizerState {
                awaiting_mon_ver: false,
                error: Some(
                    "Could not identify chip — device may not be u-blox or UBX protocol is disabled"@,
                ),
                phase: OptimizePhase::Error,
                ..old(self)@
            }),
    {
        self.awaiting_mon_ver = false;
        self.error = Some(
            String::from_str(
                "Could not identify chip — device may not be u-blox or UBX protocol is disabled",
            ),
        );
        self.phase = OptimizePhase::Error;
    }

    /// Milliseconds since the current phase began.
    pub fn phase_elapsed_secs(&self, now: u64) -> (ms: u64)
        ensures
            ms == self@.phase_elapsed(now),
    {
        match self.phase_start {
            Some(start) => if now >= start {
                now - start
            } else {
                0
            },
            None => 0,
        }
    }

    /// One poll cycle with observation `data` at clock reading `now`, where
    /// `timestamp` stamps the report if the cycle completes the run. Returns
    /// whether commands are waiting to be sent.
    pub fn tick_stamped(&mut self, data: &GpsData, now: u64, timestamp: String) -> (pending: bool)
        ensures
            final(self)@ == old(self)@.ticked(data@, now, timestamp@),
            pending == (final(self)@.pending_commands.len() > 0),
    {
        let elapsed: u64 = self.phase_elapsed_secs(now);
        match self.phase {
            OptimizePhase::IdentifyingChip => {
                if elapsed >= MON_VER_TIMEOUT && self.awaiting_mon_ver {
                    self.on_mon_ver_timeout();
                }
            },
            OptimizePhase::CollectingBaseline => {
                self.baseline_collector.add_sample(data);
                if elapsed >= BASELINE_DURATION {
                    self.baseline_snapshot = Some(self.baseline_collector.snapshot());
                    let series: UbloxSeries = match &self.chip_info {
                        Some(c) => c.series,
                        None => UbloxSeries::Unknown,
                    };
                    self.pending_commands = get_optimization_commands(&series);
                    self.phase = OptimizePhase::ApplyingProfile;
                    self.phase_start = Some(now);
                }
            },
            OptimizePhase::ApplyingProfile => {
                if self.pending_commands.len() == 0 {
                    self.phase = OptimizePhase::Stabilizing;
                    self.phase_start = Some(now);
                }
            },
            OptimizePhase::Stabilizing => {
                if elapsed >= STABILIZATION_DURATION {
                    self.phase = OptimizePhase::CollectingResult;
                    self.phase_start = Some(now);
                }
            },
            OptimizePhase::CollectingResult => {
                self.result_collector.add_sample(data);
                if elapsed >= RESULT_DURATION {
                    let after: PerformanceSnapshot = self.result_collector.snapshot();
                    let before: PerformanceSnapshot = match &self.baseline_snapshot {
                        Some(b) => b.clone(),
                        None => PerformanceSnapshot::default(),
                    };
                    self.report = Some(self.build_report_at(&before, &after, timestamp));
                    self.phase = OptimizePhase::Complete;
                }
            },
            _ => {},
        }
        self.pending_commands.len() > 0
    }

    /// One poll cycle with observation `data` at clock reading `now`. A
    /// report that this cycle builds is stamped with the current UTC time;
    /// everything else is determined by the state and the arguments.
    pub fn tick(&mut self, data: &GpsData, now: u64) -> (pending: bool)
        ensures
            exists|timestamp: Seq<char>|
                final(self)@ == old(self)@.ticked(data@, now, timestamp),
            pending == (final(self)@.pending_commands.len() > 0),
    {
        let completes: bool = match self.phase {
            OptimizePhase::CollectingResult => self.phase_elapsed_secs(now) >= RESULT_DURATION,
            _ => false,
        };
        let timestamp: String = if completes {
            utc_timestamp()
        } else {
            String::new()
        };
        self.tick_stamped(data, now, timestamp)
    }

    /// The report that compares `before` with `after`, stamped with
    /// `timestamp`.
    pub fn build_report_at(
        &self,
        before: &PerformanceSnapshot,
        after: &PerformanceSnapshot,
        timestamp: String,
    ) -> (report: OptimizationReport)
        ensures
            report@ == report_of(self@.chip_info, before@, after@, timestamp@),
    {
        let hdop_imp: i64 = improvement_of(
            before.avg_hdop,
            before.avg_hdop as i128 - after.avg_hdop as i128,
        );
        let sat_imp: i64 = improvement_of(
            before.avg_satellites,
            after.avg_satellites as i128 - before.avg_satellites as i128,
        );
        let snr_imp: i64 = improvement_of(
            before.avg_snr,
            after.avg_snr as i128 - before.avg_snr as i128,
        );
        let const_delta: i64 = after.constellation_count as i64 - before.constellation_count as i64;
        let series: UbloxSeries = match &self.chip_info {
            Some(c) => c.series,
            None => UbloxSeries::Unknown,
        };
        let chip_info: UbloxChipInfo = match &self.chip_info {
            Some(c) => c.clone(),
            None => {
                let unknown = UbloxChipInfo {
                    sw_version: String::from_str("Unknown"),
                    hw_version: String::from_str("Unknown"),
                    extensions: Vec::new(),
                    series: UbloxSeries::Unknown,
                    chip_name: String::from_str("Unknown"),
                };
                proof {
                    assert(unknown@.extensions =~= Seq::empty());
                }
                unknown
            },
        };
        OptimizationReport {
            chip_info,
            profile_applied: String::from_str(profile_name(&series)),
            before: before.clone(),
            after: after.clone(),
            hdop_improvement_pct: hdop_imp,
            satellite_improvement_pct: sat_imp,
            snr_improvement_pct: snr_imp,
            constellation_improvement: const_delta,
            timestamp,
        }
    }

    /// The report that compares `before` with `after`, stamped with the
    /// current UTC time. Everything but the stamp is determined by the
    /// controller and the arguments.
    pub fn build_report(&self, before: &PerformanceSnapshot, after: &PerformanceSnapshot) -> (report:
        OptimizationReport)
        ensures
            report@ == report_of(self@.chip_info, before@, after@, report.timestamp@),
    {
        self.build_report_at(before, after, utc_timestamp())
    }

    /// What the user is shown at clock reading `now`.
    pub fn get_status(&self, now: u64) -> (status: OptimizeStatus)
        ensures
            status@ == self@.status(now),
    {
        let (progress, duration): (u64, u64) = match self.phase {
            OptimizePhase::IdentifyingChip => (self.phase_elapsed_secs(now), MON_VER_TIMEOUT),
            OptimizePhase::CollectingBaseline => (self.phase_elapsed_secs(now), BASELINE_DURATION),
            OptimizePhase::ApplyingProfile => (self.phase_elapsed_secs(now), APPLY_DURATION),
            OptimizePhase::Stabilizing => (self.phase_elapsed_secs(now), STABILIZATION_DURATION),
            OptimizePhase::CollectingResult => (self.phase_elapsed_secs(now), RESULT_DURATION),
            _ => (0, 0),
        };
        OptimizeStatus {
            phase: self.phase,
            chip_info: clone_chip(&self.chip_info),
            progress_seconds: progress,
            phase_duration_seconds: duration,
            error: clone_text(&self.error),
            report: clone_report(&self.report),
            baseline_snapshot: clone_snapshot(&self.baseline_snapshot),
        }
    }

    /// Returns the controller to idle, whatever its phase.
    pub fn reset(&mut self)
        ensures
            final(self)@ == OptimizerState::idle(),
    {
        *self = UbxOptimizer::new();
    }
}

} // verus!
