//! The wall clock, read through the `chrono` crate.

use vstd::prelude::*;

verus! {

/// Hands the system clock's reading to `chrono`, through its
/// `From<SystemTime>` for `DateTime<Utc>`, and calls `timestamp_millis()` on
/// the result: the milliseconds since the start of 1970, UTC, as the clock
/// has them at the moment of the call.
///
/// Believed, not proved: the call returns, whatever the clock says. `chrono`
/// takes a reading before 1970 too and counts it as a negative number; it
/// holds every time within some 262,000 years of 1970, which is far more
/// than an operating system lets its clock be set to.
///
/// Nothing is claimed of the number: two calls may give the same one, and a
/// clock that was set back gives a smaller one.
#[verifier::external_body]
pub(crate) fn now_millis() -> (millis: i64) {
    chrono::DateTime::<chrono::Utc>::from(std::time::SystemTime::now()).timestamp_millis()
}

} // verus!
