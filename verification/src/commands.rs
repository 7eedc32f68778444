//! What the command surface decides: the envelope of a reply, the device
//! under test, the status of a test and the list of recent results.

use crate::gps::{port_views, same_text, DetectedPort, GpsSourceStatus, PortView};
use crate::ubx_optimizer::{OptimizerState, UbxOptimizer};
use crate::nmea::GpsData;
use crate::test_criteria::{
    result_views, DeviceInfo, DeviceView, ResultView, RunnerState, TestCriteria, TestResult,
    TestRunner, TestVerdict,
};
use crate::text::clone_text;
use vstd::prelude::*;
use vstd::string::*;

verus! {

/// Capacity of the list of recent results.
pub const RECENT_RESULTS_CAPACITY: usize = 50;

/// Reply to a command: the data on success, the error text on failure.
#[derive(Debug)]
pub struct CommandResult<T> {
    pub success: bool,
    pub data: Option<T>,
    pub error: Option<String>,
}

impl<T> CommandResult<T> {
    /// The reply to a command that succeeded with `data`.
    pub fn ok(data: T) -> (reply: CommandResult<T>)
        ensures
            reply.success,
            reply.data == Some(data),
            reply.error.is_none(),
    {
        CommandResult { success: true, data: Some(data), error: None }
    }

    /// The reply to a command that failed with `msg`.
    pub fn err(msg: String) -> (reply: CommandResult<T>)
        ensures
            !reply.success,
            reply.data.is_none(),
            reply.error == Some(msg),
    {
        CommandResult { success: false, data: None, error: Some(msg) }
    }
}

/// Index of the first port at or after `from` with the name `name`;
/// `ports.len()` when there is none.
pub open spec fn first_named(ports: Seq<PortView>, name: Seq<char>, from: int) -> int
    decreases ports.len() - from,
{
    if from < 0 || from >= ports.len() {
        ports.len() as int
    } else if ports[from].port_name == name {
        from
    } else {
        first_named(ports, name, from + 1)
    }
}

/// The identity of a device of which only the port name is known.
pub open spec fn unknown_device(port_name: Seq<char>) -> DeviceView {
    DeviceView {
        port_name,
        port_type: "Unknown"@,
        manufacturer: None,
        product: None,
        serial_number: None,
    }
}

/// The identity of the device on port `name`: what the first listed port of
/// that name reports, or the name alone when no such port is listed.
pub open spec fn device_on(ports: Seq<PortView>, name: Seq<char>) -> DeviceView {
    let at = first_named(ports, name, 0);
    if at < ports.len() {
        DeviceView {
            port_name: ports[at].port_name,
            port_type: ports[at].port_type,
            manufacturer: ports[at].manufacturer,
            product: ports[at].product,
            serial_number: ports[at].serial_number,
        }
    } else {
        unknown_device(name)
    }
}

/// Looks up the identity of the device on port `port_name`.
pub fn device_info_for(ports: &Vec<DetectedPort>, port_name: &str) -> (device: DeviceInfo)
    ensures
        device@ == device_on(port_views(ports@), port_name@),
{
    let mut i: usize = 0;
    while i < ports.len()
        invariant
            i <= ports@.len(),
            first_named(port_views(ports@), port_name@, 0) == first_named(
                port_views(ports@),
                port_name@,
                i as int,
            ),
        decreases ports@.len() - i,
    {
        proof {
            assert(port_views(ports@)[i as int] == ports@[i as int]@);
        }
        if same_text(ports[i].port_name.as_str(), port_name) {
            return DeviceInfo {
                port_name: ports[i].port_name.clone(),
                port_type: ports[i].port_type.clone(),
                manufacturer: clone_text(&ports[i].manufacturer),
                product: clone_text(&ports[i].product),
                serial_number: clone_text(&ports[i].serial_number),
            };
        }
        i += 1;
    }
    DeviceInfo {
        port_name: String::from_str(port_name),
        port_type: String::from_str("Unknown"),
        manufacturer: None,
        product: None,
        serial_number: None,
    }
}

/// What starting a test is refused with while no port is open.
pub open spec fn not_connected_text() -> Seq<char> {
    "No GPS connected. Connect a GPS device first."@
}

/// Starts a test of the receiver on the open port, at clock reading `now`.
/// While no port is open (none was connected, or the connection is being
/// made, has failed or was ended) there is nothing to test. `ports` is the
/// current port list; when it could not be had, the device is known by its
/// port name alone.
pub fn start_test(
    status: &GpsSourceStatus,
    ports: &Option<Vec<DetectedPort>>,
    criteria: TestCriteria,
    now: u64,
) -> (r: Result<TestRunner, String>)
    ensures
        r.is_ok() == status@.port_open(),
        match r {
            Ok(runner) => runner@ == RunnerState::fresh(
                criteria,
                match *ports {
                    Some(list) => device_on(port_views(list@), status@.port_name.unwrap()),
                    None => unknown_device(status@.port_name.unwrap()),
                },
            ).started(now),
            Err(reason) => reason@ == not_connected_text(),
        },
{
    if !status.has_open_port() {
        return Err(String::from_str("No GPS connected. Connect a GPS device first."));
    }
    let port_name: &String = match &status.port_name {
        Some(name) => name,
        None => {
            return Err(String::from_str("No GPS connected. Connect a GPS device first."));
        },
    };
    let device: DeviceInfo = match ports {
        Some(list) => device_info_for(list, port_name.as_str()),
        None => DeviceInfo {
            port_name: port_name.clone(),
            port_type: String::from_str("Unknown"),
            manufacturer: None,
            product: None,
            serial_number: None,
        },
    };
    let mut runner: TestRunner = TestRunner::new(criteria, device);
    runner.start(now);
    Ok(runner)
}

/// Starts an optimisation run on the receiver on the open port, at clock
/// reading `now`. While no port is open the controller stays as it is.
pub fn start_optimization(status: &GpsSourceStatus, optimizer: &mut UbxOptimizer, now: u64) -> (r:
    Result<(), String>)
    ensures
        r.is_ok() == status@.port_open(),
        match r {
            Ok(_) => final(optimizer)@ == OptimizerState::started(now),
            Err(reason) => reason@ == not_connected_text() && final(optimizer)@ == old(
                optimizer,
            )@,
        },
{
    if !status.has_open_port() {
        return Err(String::from_str("No GPS connected. Connect a GPS device first."));
    }
    optimizer.start(now);
    Ok(())
}

/// The result that is shown while no test was started.
pub open spec fn no_test(timestamp: Seq<char>) -> ResultView {
    ResultView {
        verdict: TestVerdict::NotStarted,
        criteria_results: Seq::empty(),
        ttff_seconds: None,
        test_duration_seconds: 0,
        device_info: DeviceView {
            port_name: "None"@,
            port_type: "None"@,
            manufacturer: None,
            product: None,
            serial_number: None,
        },
        timestamp,
        best_gps_data: None,
    }
}

/// The state of an optional runner.
pub open spec fn runner_state_of(runner: Option<TestRunner>) -> Option<RunnerState> {
    match runner {
        Some(r) => Some(r@),
        None => None,
    }
}

/// Status of the test at clock reading `now`, stamped with `timestamp`. A
/// runner that is running evaluates the latest observation first; without a
/// runner the status says that no test was started.
pub fn get_test_status(
    runner: &mut Option<TestRunner>,
    data: &GpsData,
    now: u64,
    timestamp: String,
) -> (result: TestResult)
    ensures
        match *old(runner) {
            Some(before) => runner_state_of(*final(runner)) == Some(before@.evaluated(data@, now))
                && result@ == (ResultView {
                verdict: before@.evaluated(data@, now).verdict,
                criteria_results: before@.evaluated(data@, now).last_results,
                ttff_seconds: before@.evaluated(data@, now).ttff(),
                test_duration_seconds: before@.elapsed(now),
                device_info: before@.device_info,
                timestamp: timestamp@,
                best_gps_data: Some(data@),
            }),
            None => final(runner).is_none() && result@ == no_test(timestamp@),
        },
{
    match runner {
        Some(r) => {
            if r.verdict == TestVerdict::Running {
                r.evaluate(data, now);
            }
            r.result_at(Some(data), now, timestamp)
        },
        None => {
            let result = TestResult {
                verdict: TestVerdict::NotStarted,
                criteria_results: Vec::new(),
                ttff_seconds: None,
                test_duration_seconds: 0,
                device_info: DeviceInfo {
                    port_name: String::from_str("None"),
                    port_type: String::from_str("None"),
                    manufacturer: None,
                    product: None,
                    serial_number: None,
                },
                timestamp,
                best_gps_data: None,
            };
            proof {
                assert(result_views(result.criteria_results@) =~= Seq::empty());
            }
            result
        },
    }
}

/// The values of a list of results.
pub open spec fn results_of(list: Seq<TestResult>) -> Seq<ResultView> {
    list.map_values(|r: TestResult| r@)
}

/// The list of recent results after `result` was added: the most recent
/// results, at most `RECENT_RESULTS_CAPACITY` of them, oldest first.
pub open spec fn recent_pushed(list: Seq<ResultView>, result: ResultView) -> Seq<ResultView> {
    if list.len() >= RECENT_RESULTS_CAPACITY {
        list.subrange(list.len() - RECENT_RESULTS_CAPACITY + 1, list.len() as int).push(result)
    } else {
        list.push(result)
    }
}

/// The list of recent results never holds more than its capacity, and the
/// newest result stands last.
pub proof fn lemma_recent_results_are_bounded(list: Seq<ResultView>, result: ResultView)
    ensures
        1 <= recent_pushed(list, result).len() <= RECENT_RESULTS_CAPACITY,
        recent_pushed(list, result).last() == result,
        list.len() < RECENT_RESULTS_CAPACITY ==> recent_pushed(list, result) == list.push(result),
{
}

/// Adds `result` to the list of recent results, dropping the oldest ones as
/// far as the capacity demands.
pub fn push_recent(recent: &mut Vec<TestResult>, result: TestResult)
    ensures
        results_of(final(recent)@) == recent_pushed(results_of(old(recent)@), result@),
{
    let ghost before = results_of(recent@);
    while recent.len() >= RECENT_RESULTS_CAPACITY
        invariant
            recent@.len() <= before.len(),
            results_of(recent@) == before.subrange(
                before.len() - recent@.len(),
                before.len() as int,
            ),
            recent@.len() == before.len() || recent@.len() >= RECENT_RESULTS_CAPACITY - 1,
        decreases recent@.len(),
    {
        let ghost shorter = results_of(recent@);
        recent.remove(0);
        proof {
            assert(results_of(recent@) =~= shorter.skip(1));
            assert(results_of(recent@) =~= before.subrange(
                before.len() - recent@.len(),
                before.len() as int,
            ));
        }
    }
    let ghost kept = results_of(recent@);
    recent.push(result);
    proof {
        assert(results_of(recent@) =~= kept.push(result@));
        assert(results_of(recent@) =~= recent_pushed(before, result@));
    }
}

} // verus!
