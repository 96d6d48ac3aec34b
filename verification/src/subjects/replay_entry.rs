//! A value kept by a `ReplaySubject` for replay, stamped with the instant it
//! was emitted. The stamp is private: the only way to make an entry is
//! `EmittedValueEntry::new`, which stamps it with a clock reading taken in
//! that call, and an entry's stamp can only be read as an age.
use std::time::Instant;
use vstd::prelude::*;

use crate::clock::{duration_as_millis, instant_elapsed, instant_now};

verus! {

/// A value kept for replay, with the instant it was emitted.
pub struct EmittedValueEntry<T>(T, Instant);

impl<T> EmittedValueEntry<T> {
    pub closed spec fn value(&self) -> T {
        self.0
    }

    /// Records `v` as emitted now.
    pub fn new(v: T) -> (e: Self)
        ensures
            e.value() == v,
    {
        EmittedValueEntry(v, instant_now())
    }

    /// The value kept.
    pub fn value_ref(&self) -> (r: &T)
        ensures
            *r == self.value(),
    {
        &self.0
    }

    /// The whole milliseconds elapsed since the value was emitted. The
    /// answer depends on the time of the call, so nothing is stated of it.
    pub fn elapsed_ms(&self) -> u128 {
        let elapsed = instant_elapsed(&self.1);
        duration_as_millis(&elapsed)
    }

    /// Whether the value was emitted at most `window_size_ms` milliseconds
    /// ago: `fresh_within` applied to a reading of `elapsed_ms` taken now.
    /// The reading depends on the time of the call, so the contract can
    /// only say what holds of every reading: no window of `u128::MAX`
    /// milliseconds has run out.
    pub fn is_fresh(&self, window_size_ms: u128) -> (r: bool)
        ensures
            window_size_ms == u128::MAX ==> r,
    {
        fresh_within(self.elapsed_ms(), window_size_ms)
    }
}

/// Whether a value read `elapsed_ms` milliseconds old is within a window of
/// `window_ms` milliseconds.
pub fn fresh_within(elapsed_ms: u128, window_ms: u128) -> (r: bool)
    ensures
        r == (elapsed_ms <= window_ms),
{
    elapsed_ms <= window_ms
}

/// For each reading of a value's age, whether the value is within the
/// window.
pub open spec fn fresh_marks(readings: Seq<u128>, window_ms: u128) -> Seq<bool> {
    readings.map_values(|ms: u128| ms <= window_ms)
}

} // verus!
