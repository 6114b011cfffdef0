//! Time sources behind a trait, so that tests can substitute their own.

use vstd::prelude::*;
use crate::time::{duration_as_nanos, duration_total_nanos, instant_now};

verus! {

#[verifier::external_type_specification]
#[verifier::external_body]
pub struct ExSystemTime(std::time::SystemTime);

/// A source of time.
pub trait Clock {
    /// A monotonic instant, for freshness and elapsed-time checks.
    fn now(&self) -> std::time::Instant;

    /// Wall-clock time as Unix milliseconds.
    fn unix_ms(&self) -> i64;
}

/// The clock of the operating system.
#[derive(Debug, Clone, Copy)]
pub struct SystemClock;

/// `SystemTime::now`: the current wall-clock time. Nothing is claimed of the
/// value.
#[verifier::external_body]
fn system_time_now() -> std::time::SystemTime {
    std::time::SystemTime::now()
}

/// `SystemTime::duration_since(UNIX_EPOCH)`, as an `Option`: the time passed
/// since the Unix epoch, or `None` when `t` is earlier than the epoch.
/// Nothing more is claimed of the value.
#[verifier::external_body]
fn since_unix_epoch(t: std::time::SystemTime) -> Option<std::time::Duration> {
    t.duration_since(std::time::UNIX_EPOCH).ok()
}

/// Whole milliseconds of a nanosecond count, as an `i64` with the bits of
/// the low 64 (as a numeric cast gives them).
pub open spec fn millis_as_i64(nanos: nat) -> i64 {
    ((nanos / 1_000_000) as u128) as i64
}

/// Milliseconds since the epoch of a time offset (none counts as zero).
pub fn unix_millis_of(since_epoch: Option<std::time::Duration>) -> (ms: i64)
    ensures
        ms == (match since_epoch {
            Some(d) => millis_as_i64(duration_total_nanos(d)),
            None => 0,
        }),
{
    match since_epoch {
        Some(d) => {
            let n = duration_as_nanos(d);
            (n / 1_000_000) as i64
        },
        None => 0,
    }
}

impl Clock for SystemClock {
    fn now(&self) -> std::time::Instant {
        instant_now()
    }

    fn unix_ms(&self) -> i64 {
        unix_millis_of(since_unix_epoch(system_time_now()))
    }
}

} // verus!
