//! The clock.

use vstd::prelude::*;

verus! {

/// `chrono::Utc::now`, in milliseconds since the start of 1970. It depends on
/// the clock of the machine, so nothing is stated of it; on a clock that stands
/// before 1970 the call panics.
#[verifier::external_body]
pub(crate) fn now_millis() -> (r: i64) {
    chrono::Utc::now().timestamp_millis()
}

} // verus!
