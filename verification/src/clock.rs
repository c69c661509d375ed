//! Trusted surface over the wall clock.
//!
//! What the clock returns depends on the moment of the call, so nothing is
//! promised about either value; every consumer carries the timestamps
//! through unchanged.

use vstd::prelude::*;

verus! {

/// Relies on chrono::Utc::now and DateTime::to_rfc3339: the current UTC
/// time, rendered in RFC 3339 form. The clock read assumes a system time at
/// or after the Unix epoch; chrono panics on an earlier one.
#[verifier::external_body]
pub fn now_rfc3339() -> String {
    chrono::Utc::now().to_rfc3339()
}

/// Relies on chrono::Utc::now and DateTime::timestamp_millis: milliseconds
/// between the UNIX epoch and the current UTC time. The clock read assumes
/// a system time at or after the Unix epoch; chrono panics on an earlier
/// one.
#[verifier::external_body]
pub fn now_epoch_ms() -> i64 {
    chrono::Utc::now().timestamp_millis()
}

} // verus!
