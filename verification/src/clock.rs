//! The wall clock, read through the system time.

use std::time::SystemTime;
use vstd::prelude::*;

verus! {

#[verifier::external_type_specification]
#[verifier::external_body]
pub struct ExSystemTime(SystemTime);

/// `SystemTime::now`: the current wall-clock time. Nothing is promised of it.
#[verifier::external_body]
fn system_now() -> SystemTime {
    SystemTime::now()
}

/// `SystemTime::duration_since(UNIX_EPOCH)`, in whole seconds; `None` for a
/// time before the epoch. Nothing is promised of the value, which depends on
/// the clock.
#[verifier::external_body]
fn seconds_since_epoch(t: &SystemTime) -> Option<u64> {
    t.duration_since(std::time::UNIX_EPOCH).ok().map(|d| d.as_secs())
}

/// Seconds in the UTC day used for the quota rollover boundary.
pub const SECONDS_PER_DAY: u64 = 86_400;

/// The day number of a reading of the clock: days since the epoch, and day 0
/// for a clock before the epoch.
pub open spec fn spec_day_of(seconds: Option<u64>) -> u64 {
    match seconds {
        Some(s) => (s / SECONDS_PER_DAY) as u64,
        None => 0,
    }
}

/// The Unix time of a reading of the clock, and `u64::MAX` for a clock before
/// the epoch, so that an expiry check on a broken clock fails closed.
pub open spec fn spec_unix_of(seconds: Option<u64>) -> u64 {
    match seconds {
        Some(s) => s,
        None => u64::MAX,
    }
}

/// Reads the clock: whole seconds since the epoch, `None` before it.
pub fn read_clock() -> Option<u64> {
    let now = system_now();
    seconds_since_epoch(&now)
}

/// Days since the Unix epoch, UTC, for a given clock reading.
pub fn day_of(seconds: Option<u64>) -> (d: u64)
    ensures
        d == spec_day_of(seconds),
{
    match seconds {
        Some(s) => s / SECONDS_PER_DAY,
        None => 0,
    }
}

/// Unix seconds for a given clock reading, `u64::MAX` before the epoch.
pub fn unix_of(seconds: Option<u64>) -> (t: u64)
    ensures
        t == spec_unix_of(seconds),
{
    match seconds {
        Some(s) => s,
        None => u64::MAX,
    }
}

/// Days since the Unix epoch, UTC, now. A clock before the epoch reads as day 0.
pub fn current_day() -> (d: u64)
    ensures
        exists|s: Option<u64>| d == spec_day_of(s),
{
    let s = read_clock();
    day_of(s)
}

/// Unix seconds now; `u64::MAX` when the clock reads before the epoch.
pub fn now_unix() -> (t: u64)
    ensures
        exists|s: Option<u64>| t == spec_unix_of(s),
{
    let s = read_clock();
    unix_of(s)
}

} // verus!
