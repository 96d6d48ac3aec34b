//! `BehaviorSubject`: a subject that holds a current value (the initial one
//! until a value is emitted) and hands it to each new subscriber.
use std::sync::Arc;
use vstd::prelude::*;
use vstd::rwlock::RwLock;

use super::registry::{
    all_got_complete, all_got_error, all_got_next, got_next_clone, late_outcome, second,
    with_key, without_key, Registry, RegistryView,
    keys_of, registry_step, SubjectCall,
};
use super::{gen_key, Multicast, SharedState, SubjectSubscription, WellFormed};
use crate::observer::Observer;
use crate::subscription::subscribe::{Fuse, Unsubscribeable};
use crate::subscription::subscribe::Subscriber;

verus! {

/// The state of a `BehaviorSubject`: its current value, its observers and how
/// it ended, if it has.
#[verifier::reject_recursive_types(T)]
#[verifier::reject_recursive_types(E)]
pub struct BehaviorSubject<T, E> {
    value: T,
    reg: Registry<T, E>,
}

/// A `BehaviorSubject` as the rules see it.
pub ghost struct BehaviorView<T, E> {
    pub value: T,
    pub reg: RegistryView<T, E>,
}

impl<T, E> View for BehaviorSubject<T, E> {
    type V = BehaviorView<T, E>;

    closed spec fn view(&self) -> BehaviorView<T, E> {
        BehaviorView { value: self.value, reg: self.reg@ }
    }
}

impl<T, E> BehaviorSubject<T, E> {
    /// A behavior subject holding `value`, with no observers, not ended.
    pub fn new(value: T) -> (s: Self)
        ensures
            s@.value == value,
            s@.reg.observers.len() == 0,
            s@.reg.live(),
            s@.reg.error is None,
            s@.reg.released.len() == 0,
            s@.reg.wf(),
    {
        BehaviorSubject { value, reg: Registry::new() }
    }

    /// A key under which no observer is registered: `candidate` itself when
    /// it is free.
    pub fn fresh_key(&self, candidate: u64) -> (k: u64)
        ensures
            !keys_of(self@.reg.observers).contains(k),
            !keys_of(self@.reg.observers).contains(candidate) ==> k == candidate,
    {
        self.reg.fresh_key(candidate)
    }

    /// Subscribes `v` under `key`. A closed subject lets `v` go unnotified; a
    /// subject that has ended tells `v` how (error or completion) and lets it
    /// go; otherwise `v` gets a clone of the current value and is registered.
    /// Returns whether it was registered.
    pub fn subscribe_keyed(&mut self, key: u64, v: Subscriber<T, E>) -> (registered: bool)
        where
            T: Clone,
            E: Clone,
        requires
            old(self)@.reg.wf(),
            v@.ready,
        ensures
            final(self)@.reg.wf(),
            final(self)@.value == old(self)@.value,
            registered == old(self)@.reg.live(),
            old(self)@.reg.closed ==> final(self)@.reg == (RegistryView {
                released: old(self)@.reg.released.push(v@),
                ..old(self)@.reg
            }),
            !old(self)@.reg.closed && old(self)@.reg.completed ==> {
                &&& final(self)@.reg == (RegistryView {
                    released: final(self)@.reg.released,
                    ..old(self)@.reg
                })
                &&& final(self)@.reg.released.drop_last() == old(self)@.reg.released
                &&& final(self)@.reg.released.len() == old(self)@.reg.released.len() + 1
                &&& late_outcome(v@, final(self)@.reg.released.last(), old(self)@.reg.error)
            },
            old(self)@.reg.live() ==> {
                &&& final(self)@.reg == (RegistryView {
                    observers: final(self)@.reg.observers,
                    ..old(self)@.reg
                })
                &&& final(self)@.reg.observers.drop_last() == old(self)@.reg.observers
                &&& final(self)@.reg.observers.len() == old(self)@.reg.observers.len() + 1
                &&& final(self)@.reg.observers.last().0 == key
                &&& got_next_clone(v@, final(self)@.reg.observers.last().1, old(self)@.value)
            },
            registry_step(old(self)@.reg, final(self)@.reg, SubjectCall::Subscribe(key)),
            old(self)@.reg.keys_distinct() && !keys_of(old(self)@.reg.observers).contains(key) ==> final(self)@.reg.keys_distinct(),
    {
        if self.reg.is_closed() {
            self.reg.release(v);
            return false;
        }
        if self.reg.is_completed() {
            self.reg.notify_late(v);
            return false;
        }
        let mut v = v;
        let current = self.value.clone();
        v.deliver_next(current);
        let ghost before = self.reg@;
        self.reg.register(key, v);
        proof {
            assert(self.reg@.observers.drop_last() =~= before.observers);
        }
        true
    }

    /// Makes a clone of `v` the current value and multicasts clones of `v` to
    /// every observer, unless the subject has ended or is closed.
    pub fn emit_next(&mut self, v: T)
        where
            T: Clone,
        requires
            old(self)@.reg.wf(),
        ensures
            final(self)@.reg.wf(),
            !old(self)@.reg.live() ==> final(self)@ == old(self)@,
            old(self)@.reg.live() ==> {
                &&& cloned(v, final(self)@.value)
                &&& all_got_next(old(self)@.reg.observers, final(self)@.reg.observers, v)
                &&& final(self)@.reg == (RegistryView {
                    observers: final(self)@.reg.observers,
                    ..old(self)@.reg
                })
            },
            registry_step(old(self)@.reg, final(self)@.reg, SubjectCall::Next),
            old(self)@.reg.keys_distinct() ==> final(self)@.reg.keys_distinct(),
    {
        if self.reg.is_closed() || self.reg.is_completed() {
            return;
        }
        self.value = v.clone();
        self.reg.next(&v);
    }

    /// Ends the stream with an error: every observer gets a clone of it and is
    /// let go. Nothing happens once the subject has ended or is closed.
    pub fn emit_error(&mut self, e: E)
        where
            E: Clone,
        requires
            old(self)@.reg.wf(),
        ensures
            final(self)@.reg.wf(),
            final(self)@.value == old(self)@.value,
            !old(self)@.reg.live() ==> final(self)@ == old(self)@,
            old(self)@.reg.live() ==> {
                &&& final(self)@.reg.observers.len() == 0
                &&& final(self)@.reg.completed
                &&& !final(self)@.reg.closed
                &&& final(self)@.reg.error == Some(e)
                &&& final(self)@.reg.released.take(old(self)@.reg.released.len() as int)
                    == old(self)@.reg.released
                &&& all_got_error(
                    old(self)@.reg.observers,
                    final(self)@.reg.released.skip(old(self)@.reg.released.len() as int),
                    e,
                )
            },
            registry_step(old(self)@.reg, final(self)@.reg, SubjectCall::Error),
            old(self)@.reg.keys_distinct() ==> final(self)@.reg.keys_distinct(),
    {
        self.reg.fail(e);
    }

    /// Completes the stream: every observer gets the completion and is let go.
    /// Nothing happens once the subject has ended or is closed.
    pub fn emit_complete(&mut self)
        requires
            old(self)@.reg.wf(),
        ensures
            final(self)@.reg.wf(),
            final(self)@.value == old(self)@.value,
            !old(self)@.reg.live() ==> final(self)@ == old(self)@,
            old(self)@.reg.live() ==> {
                &&& final(self)@.reg.observers.len() == 0
                &&& final(self)@.reg.completed
                &&& !final(self)@.reg.closed
                &&& final(self)@.reg.error is None
                &&& final(self)@.reg.released.take(old(self)@.reg.released.len() as int)
                    == old(self)@.reg.released
                &&& all_got_complete(
                    old(self)@.reg.observers,
                    final(self)@.reg.released.skip(old(self)@.reg.released.len() as int),
                )
            },
            registry_step(old(self)@.reg, final(self)@.reg, SubjectCall::Complete),
            old(self)@.reg.keys_distinct() ==> final(self)@.reg.keys_distinct(),
    {
        self.reg.finish();
    }

    /// Closes the subject: it stops multicasting and registering, and lets its
    /// observers go unnotified.
    pub fn close(&mut self)
        requires
            old(self)@.reg.wf(),
        ensures
            final(self)@.reg.wf(),
            final(self)@.value == old(self)@.value,
            final(self)@.reg == (RegistryView {
                observers: Seq::empty(),
                closed: true,
                released: old(self)@.reg.released + second(old(self)@.reg.observers),
                ..old(self)@.reg
            }),
            registry_step(old(self)@.reg, final(self)@.reg, SubjectCall::Close),
            old(self)@.reg.keys_distinct() ==> final(self)@.reg.keys_distinct(),
    {
        self.reg.close();
    }

    /// Number of registered observers.
    pub fn observer_count(&self) -> (r: usize)
        ensures
            r == self@.reg.observers.len(),
    {
        self.reg.count()
    }
}

impl<T, E> Multicast for BehaviorSubject<T, E> {
    type Settings = ();

    open spec fn keys_distinct(&self) -> bool {
        self@.reg.keys_distinct()
    }

    open spec fn settings(&self) -> () {
        ()
    }

    open spec fn wf(&self) -> bool {
        self@.reg.wf()
    }

    fn remove_observer(&mut self, key: u64)
        ensures
            final(self)@.value == old(self)@.value,
            final(self)@.reg == (RegistryView {
                observers: without_key(old(self)@.reg.observers, key),
                released: old(self)@.reg.released + second(with_key(old(self)@.reg.observers, key)),
                ..old(self)@.reg
            }),
            registry_step(old(self)@.reg, final(self)@.reg, SubjectCall::Unsubscribe(key)),
            old(self)@.reg.keys_distinct() ==> final(self)@.reg.keys_distinct(),
    {
        self.reg.remove(key);
    }
}

impl<T, E> BehaviorSubject<T, E> {
    /// Creates a behavior subject holding `value` and returns its emitter and
    /// its receiver, which share its state.
    pub fn emitter_receiver(value: T) -> (r: (BehaviorSubjectEmitter<T, E>, BehaviorSubjectReceiver<T, E>))
        ensures
            r.0.shared() == r.1.shared(),
    {
        let state = BehaviorSubject::new(value);
        let lock = Arc::new(RwLock::new(state, Ghost(WellFormed { settings: () })));
        (BehaviorSubjectEmitter { inner: lock.clone() }, BehaviorSubjectReceiver { inner: lock })
    }
}

/// The receiving side of a `BehaviorSubject`: observers subscribe to it.
#[derive(Clone)]
#[verifier::reject_recursive_types(T)]
#[verifier::reject_recursive_types(E)]
pub struct BehaviorSubjectReceiver<T, E> {
    inner: Arc<SharedState<BehaviorSubject<T, E>>>,
}

/// The emitting side of a `BehaviorSubject`.
#[derive(Clone)]
#[verifier::reject_recursive_types(T)]
#[verifier::reject_recursive_types(E)]
pub struct BehaviorSubjectEmitter<T, E> {
    inner: Arc<SharedState<BehaviorSubject<T, E>>>,
}

impl<T, E> BehaviorSubjectReceiver<T, E> {
    /// The lock holding the state this receiver shares.
    pub closed spec fn shared(&self) -> SharedState<BehaviorSubject<T, E>> {
        *self.inner
    }
}

impl<T, E> BehaviorSubjectEmitter<T, E> {
    /// The lock holding the state this emitter shares.
    pub closed spec fn shared(&self) -> SharedState<BehaviorSubject<T, E>> {
        *self.inner
    }
}

impl<T, E> BehaviorSubjectReceiver<T, E> {
    /// Number of registered observers at the time of the call.
    pub fn len(&self) -> usize {
        let handle = self.inner.acquire_read();
        let n = handle.borrow().observer_count();
        handle.release_read();
        n
    }

    /// Whether no observer is registered at the time of the call.
    pub fn is_empty(&self) -> bool {
        self.len() == 0
    }

    /// Subscribes `v` under a fresh random key (see
    /// `BehaviorSubject::subscribe_keyed` for what happens to it).
    pub fn subscribe(&mut self, v: Subscriber<T, E>) -> (s: SubjectSubscription<BehaviorSubject<T, E>>)
        where
            T: Clone,
            E: Clone,
        requires
            v@.ready,
        ensures
            final(self).shared() == old(self).shared(),
            s.holds_registration() ==> s.registered_with() == old(self).shared(),
    {
        let (mut state, handle) = self.inner.acquire_write();
        let key = state.fresh_key(gen_key());
        let registered = state.subscribe_keyed(key, v);
        handle.release_write(state);
        if registered {
            SubjectSubscription { source: Some(self.inner.clone()), key }
        } else {
            SubjectSubscription { source: None, key }
        }
    }
}

impl<T, E> Fuse for BehaviorSubjectReceiver<T, E> {

}

impl<T, E> Unsubscribeable for BehaviorSubjectReceiver<T, E> {
    /// Closes the subject and drops its observers.
    fn unsubscribe(self) {
        let (mut state, handle) = self.inner.acquire_write();
        state.close();
        handle.release_write(state);
    }
}

impl<T: Clone, E: Clone> Observer for BehaviorSubjectEmitter<T, E> {
    type NextFnType = T;

    type ErrorType = E;

    open spec fn observer_ready(&self) -> bool {
        true
    }

    fn next(&mut self, v: T) {
        let (mut state, handle) = self.inner.acquire_write();
        state.emit_next(v);
        handle.release_write(state);
    }

    fn error(&mut self, e: E) {
        let (mut state, handle) = self.inner.acquire_write();
        state.emit_error(e);
        handle.release_write(state);
    }

    fn complete(&mut self) {
        let (mut state, handle) = self.inner.acquire_write();
        state.emit_complete();
        handle.release_write(state);
    }
}

} // verus!
