//! Instants as seconds since the epoch, with the application's habit of
//! working five minutes behind the wall clock.

use vstd::prelude::*;

use crate::jwt::now_unix;

verus! {

/// Five minutes, in seconds.
pub const CLOCK_SKEW_SECS: i64 = 300;

/// The skewed reading of a clock value: five minutes earlier, clamped
/// at the bottom of the representable range.
pub open spec fn spec_skewed(now: int) -> int {
    if now >= i64::MIN + CLOCK_SKEW_SECS {
        now - CLOCK_SKEW_SECS
    } else {
        i64::MIN as int
    }
}

/// The skewed reading of a given clock value.
pub fn get_now_from(now: i64) -> (r: i64)
    ensures
        r == spec_skewed(now as int),
{
    if now >= i64::MIN + CLOCK_SKEW_SECS {
        now - CLOCK_SKEW_SECS
    } else {
        i64::MIN
    }
}

/// The current instant, read five minutes behind the wall clock.
pub fn get_now() -> (r: i64)
    ensures
        r <= i64::MAX - CLOCK_SKEW_SECS,
{
    get_now_from(now_unix())
}

/// An expiry instant: `minutes` plus a five-minute grace, counted from
/// `now`.
pub fn get_expiry_from(now: i64, minutes: i64) -> (r: i64)
    requires
        -1000000000 <= minutes <= 1000000000,
        i64::MIN + 60300000000 <= now <= i64::MAX - 60300000000,
    ensures
        r == now + (minutes + 5) * 60,
{
    now + (minutes + 5) * 60
}

/// An expiry instant `minutes` (plus the five-minute grace) from the
/// current skewed instant.
pub fn get_expiry(minutes: i64) -> (r: i64)
    requires
        -1000000000 <= minutes <= 1000000000,
{
    let now = get_now();
    let clamped = if now < i64::MIN + 60300000000 {
        i64::MIN + 60300000000
    } else if now > i64::MAX - 60300000000 {
        i64::MAX - 60300000000
    } else {
        now
    };
    get_expiry_from(clamped, minutes)
}

} // verus!
