//! Wall-clock access for fault and rebuild timestamps.

use vstd::prelude::*;

verus! {

/// Relies on `chrono::Utc::now` and `chrono::DateTime::timestamp_millis`
/// for the current time as milliseconds since the Unix epoch.  Nothing can
/// be promised of a clock reading.
#[verifier::external_body]
pub(crate) fn now_millis() -> i64 {
    chrono::Utc::now().timestamp_millis()
}

} // verus!
