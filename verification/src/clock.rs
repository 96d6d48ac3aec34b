//! Readings of the system's clocks. What they return depends on the time at
//! which they are called, so nothing is stated of their results; the
//! library's functions take the readings as they come.
use std::time::{Duration, Instant, SystemTime, SystemTimeError};
use vstd::prelude::*;

verus! {

#[verifier::external_type_specification]
#[verifier::external_body]
pub struct ExInstant(Instant);

#[verifier::external_type_specification]
#[verifier::external_body]
pub struct ExSystemTime(SystemTime);

#[verifier::external_type_specification]
#[verifier::external_body]
pub struct ExSystemTimeError(SystemTimeError);

/// The current monotonic instant: `Instant::now`.
#[verifier::external_body]
pub(crate) fn instant_now() -> Instant {
    Instant::now()
}

/// The time elapsed since `i`: `Instant::elapsed`.
#[verifier::external_body]
pub(crate) fn instant_elapsed(i: &Instant) -> Duration {
    i.elapsed()
}

/// The whole milliseconds in `d`: `Duration::as_millis`. `Duration` is opaque
/// here, so the relation of the result to `d` is not stated.
#[verifier::external_body]
pub(crate) fn duration_as_millis(d: &Duration) -> u128 {
    d.as_millis()
}

/// The current wall-clock time: `SystemTime::now`.
#[verifier::external_body]
pub(crate) fn system_now() -> SystemTime {
    SystemTime::now()
}

/// The time since the Unix epoch: `SystemTime::duration_since(UNIX_EPOCH)`;
/// an error when `t` lies before the epoch.
#[verifier::external_body]
pub(crate) fn since_unix_epoch(t: &SystemTime) -> Result<Duration, SystemTimeError> {
    t.duration_since(SystemTime::UNIX_EPOCH)
}

/// How far a time lay from the epoch, in the other direction than asked:
/// `SystemTimeError::duration`.
#[verifier::external_body]
pub(crate) fn time_error_duration(e: &SystemTimeError) -> Duration {
    e.duration()
}

} // verus!
