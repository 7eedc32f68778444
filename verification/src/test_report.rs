//! Naming of saved test reports.

use crate::test_criteria::{ResultView, TestResult};
use vstd::prelude::*;
use vstd::string::*;

verus! {

/// A character as it stands in a file name: `:` and `.` become `-`.
pub open spec fn file_char(c: char) -> char {
    if c == ':' || c == '.' {
        '-'
    } else {
        c
    }
}

/// A timestamp as it stands in a file name.
pub open spec fn sanitized(timestamp: Seq<char>) -> Seq<char> {
    timestamp.map_values(|c: char| file_char(c))
}

/// Name of the file that a report is saved to: the serial number of the
/// device, or `unknown` without one, and the sanitized timestamp.
pub open spec fn report_name(result: ResultView) -> Seq<char> {
    "gps-test_"@ + (match result.device_info.serial_number {
        Some(serial) => serial,
        None => "unknown"@,
    }) + "_"@ + sanitized(result.timestamp) + ".json"@
}

/// Appends `timestamp` to `out` in the form in which it stands in a file
/// name.
pub fn append_sanitized(out: &mut String, timestamp: &str)
    ensures
        final(out)@ == old(out)@ + sanitized(timestamp@),
{
    let n: usize = timestamp.unicode_len();
    let mut i: usize = 0;
    proof {
        assert(out@ =~= old(out)@ + sanitized(timestamp@).subrange(0, 0));
    }
    while i < n
        invariant
            i <= n,
            n == timestamp@.len(),
            out@ == old(out)@ + sanitized(timestamp@).subrange(0, i as int),
        decreases n - i,
    {
        let c: char = timestamp.get_char(i);
        if c == ':' || c == '.' {
            proof {
                reveal_strlit("-");
            }
            out.append("-");
        } else {
            out.append(timestamp.substring_char(i, i + 1));
        }
        proof {
            assert(out@ =~= old(out)@ + sanitized(timestamp@).subrange(0, i + 1));
        }
        i += 1;
    }
    proof {
        assert(sanitized(timestamp@).subrange(0, n as int) =~= sanitized(timestamp@));
    }
}

/// Name of the file that `result` is saved to.
pub fn report_file_name(result: &TestResult) -> (name: String)
    ensures
        name@ == report_name(result@),
{
    let mut name: String = String::from_str("gps-test_");
    match &result.device_info.serial_number {
        Some(serial) => name.append(serial.as_str()),
        None => name.append("unknown"),
    }
    name.append("_");
    append_sanitized(&mut name, result.timestamp.as_str());
    name.append(".json");
    name
}

} // verus!
