//! Wall-clock time for stamping reports.

use vstd::prelude::*;

verus! {

/// The current UTC time in RFC 3339 notation, as `chrono::Utc::now()` and
/// `DateTime::to_rfc3339` give it. Nothing is claimed of the text: it depends
/// on when the call is made. `Utc::now` gives up only on a machine whose
/// clock stands before 1970.
#[verifier::external_body]
pub(crate) fn utc_timestamp() -> (text: String) {
    chrono::Utc::now().to_rfc3339()
}

} // verus!
