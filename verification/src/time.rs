//! The clock that deadlines are measured on: nanoseconds since boot, time spent
//! suspended included.

use vstd::prelude::*;
use nix::time::{clock_gettime, ClockId};
use std::time::Duration;

verus! {

/// The largest reading that the clock can give: a `Duration` of `u64::MAX`
/// seconds and 999,999,999 nanoseconds.
pub const MAX_CLOCK_NANOS: u128 = 18_446_744_073_709_551_615_999_999_999;

/// The nanoseconds of a millisecond.
pub const NANOS_PER_MILLI: u128 = 1_000_000;

/// The clock could not be read; `errno` is the system's error number.
#[derive(Debug, Clone, Copy, PartialEq, Eq, Structural)]
pub struct ClockError {
    pub errno: i32,
}

/// A number of milliseconds, in nanoseconds.
pub open spec fn millis(ms: int) -> int {
    ms * 1_000_000
}

/// Reads the clock `CLOCK_BOOTTIME_ALARM` by `nix::time::clock_gettime` and gives
/// the reading in nanoseconds, or the error number that the system gave. Nothing is
/// claimed of the reading but that it is one that a `Duration` can hold.
#[verifier::external_body]
pub(crate) fn boottime_alarm_clock() -> (r: Result<u128, ClockError>)
    ensures
        r matches Ok(t) ==> t <= MAX_CLOCK_NANOS,
{
    match clock_gettime(ClockId::CLOCK_BOOTTIME_ALARM) {
        Ok(ts) => Ok(Duration::from(ts).as_nanos()),
        Err(e) => Err(ClockError { errno: e as i32 }),
    }
}

/// Reads the clock `CLOCK_BOOTTIME` by `nix::time::clock_gettime` and gives the
/// reading in nanoseconds, or the error number that the system gave. Nothing is
/// claimed of the reading but that it is one that a `Duration` can hold.
#[verifier::external_body]
pub(crate) fn boottime_clock() -> (r: Result<u128, ClockError>)
    ensures
        r matches Ok(t) ==> t <= MAX_CLOCK_NANOS,
{
    match clock_gettime(ClockId::CLOCK_BOOTTIME) {
        Ok(ts) => Ok(Duration::from(ts).as_nanos()),
        Err(e) => Err(ClockError { errno: e as i32 }),
    }
}

/// The time since boot, time spent suspended included: the reading of the alarm
/// clock of that time, or, on a system without one, of the plain clock of that
/// time, which counts the same.
pub fn now() -> (r: Result<u128, ClockError>)
    ensures
        r matches Ok(t) ==> t <= MAX_CLOCK_NANOS,
{
    match boottime_alarm_clock() {
        Ok(t) => Ok(t),
        Err(_) => boottime_clock(),
    }
}

/// `ms` milliseconds after `now`.
pub fn after_millis(now: u128, ms: u64) -> (t: u128)
    requires
        now <= MAX_CLOCK_NANOS,
    ensures
        t == now + millis(ms as int),
{
    let delta: u128 = (ms as u128) * NANOS_PER_MILLI;
    now + delta
}

/// `a + b` milliseconds after `now`.
pub fn after_millis_sum(now: u128, a: u64, b: u64) -> (t: u128)
    requires
        now <= MAX_CLOCK_NANOS,
    ensures
        t == now + millis(a as int + b as int),
{
    let total: u128 = a as u128 + b as u128;
    let delta: u128 = total * NANOS_PER_MILLI;
    now + delta
}

/// The whole milliseconds from `now` until `deadline`: zero when the deadline
/// has passed, `u64::MAX` when they are more than a `u64` holds.
pub open spec fn whole_millis_until(now: int, deadline: int) -> int {
    if deadline <= now {
        0
    } else if (deadline - now) / 1_000_000 > u64::MAX {
        u64::MAX as int
    } else {
        (deadline - now) / 1_000_000
    }
}

/// The whole milliseconds from `now` until `deadline`, as `whole_millis_until`
/// gives them.
pub fn millis_until(now: u128, deadline: u128) -> (ms: u64)
    ensures
        ms == whole_millis_until(now as int, deadline as int),
{
    if deadline <= now {
        0
    } else {
        let whole: u128 = (deadline - now) / NANOS_PER_MILLI;
        if whole > u64::MAX as u128 {
            u64::MAX
        } else {
            whole as u64
        }
    }
}

} // verus!
