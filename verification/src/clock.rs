//! The one place where the core reads the wall clock. Every other
//! function takes a timestamp as a plain value, so its behavior is
//! verified for every possible reading.

use vstd::prelude::*;

verus! {

/// Relies on chrono's `Utc::now` and `DateTime::timestamp`: seconds since
/// the Unix epoch. The reading depends on the wall clock, so nothing is
/// promised about the value; callers state what holds whatever came back.
/// Note that `Utc::now` itself aborts on a system clock set before the
/// Unix epoch; that environmental expectation is chrono's, not stated
/// here.
#[verifier::external_body]
pub fn now_timestamp() -> i64 {
    chrono::Utc::now().timestamp()
}

} // verus!
