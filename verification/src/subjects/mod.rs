//! Subjects: observables that multicast to many observers, split into an
//! emitter (an observer) and a receiver (what observers subscribe to).
//!
//! Each variant keeps its state in one place shared by its emitter and its
//! receiver; every change to that state goes through the verified methods of
//! the state type, under a lock whose invariant is the state's
//! well-formedness.

pub mod registry;
pub mod async_subject;
pub mod behavior_subject;
pub mod replay_entry;
pub mod replay_subject;
pub mod subject;

pub use async_subject::{AsyncSubject, AsyncSubjectEmitter, AsyncSubjectReceiver};
pub use behavior_subject::{BehaviorSubject, BehaviorSubjectEmitter, BehaviorSubjectReceiver};
pub use replay_subject::{BufSize, EmittedValueEntry, ReplaySubject, ReplaySubjectEmitter, ReplaySubjectReceiver};
pub use subject::{Subject, SubjectEmitter, SubjectReceiver};


use std::collections::hash_map::{DefaultHasher, RandomState};
use std::sync::Arc;
use vstd::prelude::*;
use vstd::rwlock::{RwLock, RwLockPredicate};

use crate::subscription::subscribe::Unsubscribeable;

verus! {

/// A new randomly keyed hash builder: `RandomState::new`. Each call may give
/// a different key, so nothing is stated of the result.
#[verifier::external_body]
fn new_random_state() -> RandomState {
    RandomState::new()
}

/// A hasher from the builder: `BuildHasher::build_hasher`. The hasher is keyed
/// by the builder's random key, which is not modelled, so nothing is stated
/// of the result.
#[verifier::external_body]
fn build_hasher(state: &RandomState) -> DefaultHasher {
    std::hash::BuildHasher::build_hasher(state)
}

/// A random seed: the digest of an empty input under a freshly, randomly
/// keyed hasher.
fn random_seed() -> u64 {
    let state = new_random_state();
    let hasher = build_hasher(&state);
    std::hash::Hasher::finish(&hasher)
}

/// One step of Marsaglia's xorshift generator (shifts 13, 17, 5).
pub open spec fn xorshift_spec(x: u64) -> u64 {
    let a = x ^ (x << 13u64);
    let b = a ^ (a >> 17u64);
    b ^ (b << 5u64)
}

/// One step of Marsaglia's xorshift generator.
pub fn xorshift(x: u64) -> (r: u64)
    ensures
        r == xorshift_spec(x),
{
    let mut random = x;
    random ^= random << 13u64;
    random ^= random >> 17u64;
    random ^= random << 5u64;
    random
}

/// Law: the xorshift step never maps a nonzero state to zero, so a generator
/// seeded with a nonzero value never gets stuck at zero.
pub proof fn law_xorshift_keeps_nonzero(x: u64)
    requires
        x != 0,
    ensures
        xorshift_spec(x) != 0,
{
    assert(x != 0 ==> (x ^ (x << 13u64)) != 0) by (bit_vector);
    let a = x ^ (x << 13u64);
    assert(a != 0 ==> (a ^ (a >> 17u64)) != 0) by (bit_vector);
    let b = a ^ (a >> 17u64);
    assert(b != 0 ==> (b ^ (b << 5u64)) != 0) by (bit_vector);
}

/// A key under which a subscriber is registered: the first output of a
/// xorshift generator with a random seed. The step is a bijection on `u64`,
/// so nothing is stated of the key: any value can come out.
fn gen_key() -> u64 {
    let seed = random_seed();
    xorshift(seed)
}

/// The state of a subject, shared by its emitter and its receiver.
pub trait Multicast: Sized {
    /// The settings the subject was made with.
    type Settings;

    /// The state's invariant, kept by every operation.
    spec fn wf(&self) -> bool;

    /// The settings the subject was made with; no operation changes them.
    spec fn settings(&self) -> Self::Settings;

    /// No two registered observers share a key.
    spec fn keys_distinct(&self) -> bool;

    /// Drops the registration made under `key`.
    fn remove_observer(&mut self, key: u64)
        requires
            old(self).wf(),
        ensures
            final(self).wf(),
            final(self).settings() == old(self).settings(),
            old(self).keys_distinct() ==> final(self).keys_distinct(),
    ;
}

/// The lock invariant of a subject's shared state: it is well formed, keeps
/// the settings it was made with, and no two observers share a key.
pub struct WellFormed<C> {
    pub settings: C,
}

impl<S: Multicast> RwLockPredicate<S> for WellFormed<S::Settings> {
    open spec fn inv(self, s: S) -> bool {
        s.wf() && s.settings() == self.settings && s.keys_distinct()
    }
}

/// The lock holding a subject's shared state.
pub type SharedState<S> = RwLock<S, WellFormed<<S as Multicast>::Settings>>;

/// The handle returned when subscribing to a subject's receiver. Unsubscribing
/// drops the registration; it does nothing when the subscriber was not
/// registered (the subject was closed or had ended).
#[verifier::reject_recursive_types(S)]
pub struct SubjectSubscription<S: Multicast> {
    source: Option<Arc<SharedState<S>>>,
    key: u64,
}

impl<S: Multicast> SubjectSubscription<S> {
    /// The subscriber was registered.
    pub closed spec fn holds_registration(&self) -> bool {
        self.source is Some
    }

    /// The lock of the subject the subscriber was registered with.
    pub closed spec fn registered_with(&self) -> SharedState<S> {
        *self.source->Some_0
    }

    /// The key the subscriber was registered under.
    pub closed spec fn registration_key(&self) -> u64 {
        self.key
    }

    /// Whether the subscriber was registered, so that unsubscribing has
    /// something to undo.
    pub fn is_registered(&self) -> (r: bool)
        ensures
            r == self.holds_registration(),
    {
        self.source.is_some()
    }

    /// The key the subscriber was registered under.
    pub fn key(&self) -> (r: u64)
        ensures
            r == self.registration_key(),
    {
        self.key
    }
}

impl<S: Multicast> Unsubscribeable for SubjectSubscription<S> {
    fn unsubscribe(self) {
        match self.source {
            Some(src) => {
                let (mut s, handle) = src.acquire_write();
                s.remove_observer(self.key);
                handle.release_write(s);
            },
            None => {},
        }
    }
}

} // verus!
