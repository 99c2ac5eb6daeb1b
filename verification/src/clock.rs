//! The wall clock, read as nanoseconds since the Unix epoch.

use vstd::prelude::*;

verus! {

/// Calls `chrono::Utc::now` and converts with `DateTime::timestamp_nanos_opt`,
/// which gives `None` for an instant outside the range of an `i64` count of
/// nanoseconds. Trusted: nothing is promised of the reading.
#[verifier::external_body]
fn utc_now_nanos() -> Option<i64> {
    chrono::Utc::now().timestamp_nanos_opt()
}

/// The timestamp recorded for a clock reading: the reading itself, or the
/// latest representable instant when the clock is beyond it.
pub fn clock_reading(raw: Option<i64>) -> (t: i64)
    ensures
        t == match raw {
            Some(n) => n,
            None => i64::MAX,
        },
{
    match raw {
        Some(n) => n,
        None => i64::MAX,
    }
}

/// The whole milliseconds of a count of nanoseconds since the Unix epoch,
/// rounded toward the past.
pub fn nanos_to_millis(nanos: i64) -> (millis: i64)
    ensures
        millis == nanos as int / 1_000_000,
{
    match nanos.checked_div_euclid(1_000_000) {
        Some(millis) => millis,
        None => 0,
    }
}

/// The nanoseconds of a count of milliseconds since the Unix epoch, or `None`
/// where they do not fit 64 bits.
pub fn millis_to_nanos(millis: i64) -> (r: Option<i64>)
    ensures
        i64::MIN <= millis * 1_000_000 <= i64::MAX ==> r == Some((millis * 1_000_000) as i64),
        !(i64::MIN <= millis * 1_000_000 <= i64::MAX) ==> r.is_none(),
{
    millis.checked_mul(1_000_000)
}

/// The current time in nanoseconds since the Unix epoch.
pub fn now_in_nanos() -> i64 {
    clock_reading(utc_now_nanos())
}

} // verus!
