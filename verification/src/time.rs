//! Time sources. All interval logic in this crate works on nanosecond
//! counts; these items turn `std` durations and the monotonic clock into
//! such counts.

use vstd::prelude::*;

verus! {

#[verifier::external_type_specification]
#[verifier::external_body]
pub struct ExInstant(std::time::Instant);

/// The whole number of nanoseconds in a duration.
pub uninterp spec fn duration_total_nanos(d: std::time::Duration) -> nat;

/// `Duration::as_nanos`: the total number of whole nanoseconds in `d`.
#[verifier::external_body]
pub(crate) fn duration_as_nanos(d: std::time::Duration) -> (n: u128)
    ensures
        n == duration_total_nanos(d),
{
    d.as_nanos()
}

/// A duration as a nanosecond count, saturated at `u64::MAX`.
pub open spec fn nanos_of(d: std::time::Duration) -> u64 {
    if duration_total_nanos(d) <= u64::MAX {
        duration_total_nanos(d) as u64
    } else {
        u64::MAX
    }
}

/// Converts a duration to a nanosecond count (saturating at `u64::MAX`).
pub fn duration_to_nanos(d: std::time::Duration) -> (n: u64)
    ensures
        n == nanos_of(d),
{
    let n = duration_as_nanos(d);
    if n <= 0xffff_ffff_ffff_ffffu128 {
        n as u64
    } else {
        u64::MAX
    }
}

/// `Duration::from_millis`: a duration of `ms` milliseconds.
#[verifier::external_body]
pub(crate) fn duration_from_millis(ms: u64) -> (d: std::time::Duration)
    ensures
        duration_total_nanos(d) == ms * 1_000_000,
{
    std::time::Duration::from_millis(ms)
}

/// `Instant::now`: the current instant of the monotonic clock. Nothing is
/// claimed of the value.
#[verifier::external_body]
pub(crate) fn instant_now() -> std::time::Instant {
    std::time::Instant::now()
}

/// `Instant::elapsed`: time passed since `origin` on the monotonic clock.
/// Nothing is claimed of the value (it depends on the clock).
#[verifier::external_body]
fn elapsed_since(origin: &std::time::Instant) -> std::time::Duration {
    origin.elapsed()
}

/// Nanoseconds passed since `origin`, saturated at `u64::MAX`.
pub(crate) fn nanos_since(origin: &std::time::Instant) -> (n: u64) {
    let e = duration_as_nanos(elapsed_since(origin));
    if e <= 0xffff_ffff_ffff_ffffu128 {
        e as u64
    } else {
        u64::MAX
    }
}

/// Time from `earlier` to `now`, or zero when `now` is not after `earlier`.
pub open spec fn elapsed(now: u64, earlier: u64) -> int {
    if now >= earlier {
        now - earlier
    } else {
        0
    }
}

} // verus!
