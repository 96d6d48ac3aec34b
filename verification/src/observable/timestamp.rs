//! Timestamping of emitted values.
use std::time::{Duration, SystemTimeError};
use vstd::prelude::*;

use crate::clock::{duration_as_millis, since_unix_epoch, system_now, time_error_duration};

verus! {

/// The message recorded when the clock reads a time before the Unix epoch.
pub const CLOCK_BEFORE_EPOCH: &'static str =
    "Error: Attempted to calculate a time before the Unix epoch. Your system clock might be misconfigured.";

/// A value paired with the time it was emitted, in milliseconds since the
/// Unix epoch. When the clock reads a time before the epoch, the timestamp is
/// 0 and the clock error is kept.
#[derive(Clone, Debug)]
pub struct TimestampedEmit<T> {
    pub value: T,
    pub timestamp: u128,
    error: Option<&'static str>,
    sys_time_error: Option<SystemTimeError>,
}

impl<T> TimestampedEmit<T> {
    /// The emitted value.
    pub closed spec fn emitted(&self) -> T {
        self.value
    }

    /// The timestamp, in milliseconds since the epoch.
    pub closed spec fn millis(&self) -> u128 {
        self.timestamp
    }

    /// The error message, if the clock read a time before the epoch.
    pub closed spec fn error_message(&self) -> Option<&'static str> {
        self.error
    }

    /// The clock error, if the clock read a time before the epoch.
    pub closed spec fn clock_error(&self) -> Option<SystemTimeError> {
        self.sys_time_error
    }

    /// Pairs `value` with a clock reading: the milliseconds since the epoch,
    /// or the error the clock gave for a time before it (the timestamp is
    /// then 0).
    pub fn from_reading(value: T, reading: Result<u128, SystemTimeError>) -> (r: Self)
        ensures
            r.emitted() == value,
            reading matches Ok(ms) ==> {
                &&& r.millis() == ms
                &&& r.error_message() is None
                &&& r.clock_error() is None
            },
            reading is Err ==> {
                &&& r.error_message() == Some(CLOCK_BEFORE_EPOCH)
                &&& r.clock_error() == Some(reading->Err_0)
                &&& r.millis() == 0
            },
    {
        match reading {
            Ok(ms) => TimestampedEmit { value, timestamp: ms, error: None, sys_time_error: None },
            Err(ste) => TimestampedEmit {
                value,
                timestamp: 0,
                error: Some(CLOCK_BEFORE_EPOCH),
                sys_time_error: Some(ste),
            },
        }
    }

    /// Pairs `value` with the current time, in whole milliseconds since the
    /// epoch (see `from_reading` for what a reading before the epoch gives).
    pub fn new(value: T) -> (r: Self)
        ensures
            r.emitted() == value,
            r.error_message() is Some <==> r.clock_error() is Some,
            r.error_message() is Some ==> r.error_message() == Some(CLOCK_BEFORE_EPOCH) && r.millis()
                == 0,
    {
        let now = system_now();
        let reading = match since_unix_epoch(&now) {
            Ok(since_epoch) => Ok(duration_as_millis(&since_epoch)),
            Err(ste) => Err(ste),
        };
        Self::from_reading(value, reading)
    }

    /// How far the clock reading lay before the epoch, if it did.
    pub fn error_duration(&self) -> (r: Option<Duration>)
        ensures
            r is Some <==> self.clock_error() is Some,
    {
        match &self.sys_time_error {
            Some(ste) => Some(time_error_duration(ste)),
            None => None,
        }
    }

    /// The error message, if the clock read a time before the epoch.
    pub fn error_str(&self) -> (r: Option<&'static str>)
        ensures
            r == self.error_message(),
    {
        self.error
    }

    /// Whether the clock read a time before the epoch.
    pub fn is_error(&self) -> (r: bool)
        ensures
            r == self.error_message() is Some,
    {
        self.error.is_some()
    }
}

} // verus!
