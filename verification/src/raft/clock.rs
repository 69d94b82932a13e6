use std::time::{Duration, Instant, SystemTime};
use vstd::prelude::*;

verus! {

/// `std::time::Instant`, carried through the timer as an opaque value.
#[verifier::external_type_specification]
#[verifier::external_body]
pub struct ExInstant(Instant);

/// `std::time::SystemTime`, read only to draw a pseudo-random number.
#[verifier::external_type_specification]
#[verifier::external_body]
pub struct ExSystemTime(SystemTime);

/// The length of `d` in whole nanoseconds, as `Duration::as_nanos` gives it.
pub uninterp spec fn duration_nanos(d: Duration) -> u128;

/// Calls `Duration::as_nanos`; the result is the named length of `d`.
#[verifier::external_body]
pub(crate) fn duration_as_nanos(d: &Duration) -> (n: u128)
    ensures
        n == duration_nanos(*d),
{
    d.as_nanos()
}

/// Calls `Duration::from_millis`, which builds a duration of `ms` milliseconds: its
/// length is `ms` million nanoseconds.
#[verifier::external_body]
pub(crate) fn duration_from_millis(ms: u64) -> (d: Duration)
    ensures
        duration_nanos(d) == ms * 1_000_000,
{
    Duration::from_millis(ms)
}

/// Calls `Duration::new`, which builds a duration of `secs` seconds and `nanos`
/// nanoseconds; with `nanos` below one billion nothing carries into the seconds.
#[verifier::external_body]
pub(crate) fn duration_new(secs: u64, nanos: u32) -> (d: Duration)
    requires
        nanos < 1_000_000_000,
    ensures
        duration_nanos(d) == secs * 1_000_000_000 + nanos,
{
    Duration::new(secs, nanos)
}

/// Calls `Instant::now`; nothing is claimed of the moment it returns.
#[verifier::external_body]
pub(crate) fn instant_now() -> Instant {
    Instant::now()
}

/// Calls `Instant::elapsed`; nothing is claimed of the time it measures.
#[verifier::external_body]
pub(crate) fn elapsed_since(start: &Instant) -> Duration {
    start.elapsed()
}

/// Calls `SystemTime::now`; nothing is claimed of the time it returns.
#[verifier::external_body]
pub(crate) fn system_now() -> SystemTime {
    SystemTime::now()
}

/// Calls `SystemTime::duration_since(UNIX_EPOCH)`, taking a zero duration when the
/// clock reads before the epoch; nothing is claimed of the duration.
#[verifier::external_body]
pub(crate) fn since_unix_epoch(t: &SystemTime) -> Duration {
    t.duration_since(SystemTime::UNIX_EPOCH).unwrap_or_default()
}

/// Calls `Duration::subsec_nanos`: the fractional part of a second, which the
/// documentation says is always below one billion.
#[verifier::external_body]
pub(crate) fn subsec_nanos(d: &Duration) -> (n: u32)
    ensures
        n < 1_000_000_000,
{
    d.subsec_nanos()
}

} // verus!
