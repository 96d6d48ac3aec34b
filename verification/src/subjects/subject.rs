//! `Subject`: the basic multicasting subject. Values go to the observers
//! registered at the time; a subscriber arriving after the end is told how the
//! stream ended.
use std::sync::Arc;
use vstd::prelude::*;
use vstd::rwlock::RwLock;

use super::registry::{late_outcome, Registry, RegistryView, keys_of, registry_step, SubjectCall};
use super::{gen_key, Multicast, SharedState, SubjectSubscription, WellFormed};
use crate::observer::Observer;
use crate::subscription::subscribe::{Fuse, Unsubscribeable};
use crate::subscription::subscribe::Subscriber;

verus! {

/// The state of a `Subject`: its observers and how it ended, if it has.
#[verifier::reject_recursive_types(T)]
#[verifier::reject_recursive_types(E)]
pub struct Subject<T, E> {
    reg: Registry<T, E>,
}

impl<T, E> View for Subject<T, E> {
    type V = RegistryView<T, E>;

    closed spec fn view(&self) -> RegistryView<T, E> {
        self.reg@
    }
}

impl<T, E> Subject<T, E> {
    /// A subject with no observers that has not ended.
    pub fn new() -> (s: Self)
        ensures
            s@.observers.len() == 0,
            s@.live(),
            s@.error is None,
            s@.released.len() == 0,
            s@.wf(),
    {
        Subject { reg: Registry::new() }
    }

    /// A key under which no observer is registered: `candidate` itself when
    /// it is free.
    pub fn fresh_key(&self, candidate: u64) -> (k: u64)
        ensures
            !keys_of(self@.observers).contains(k),
            !keys_of(self@.observers).contains(candidate) ==> k == candidate,
    {
        self.reg.fresh_key(candidate)
    }

    /// Subscribes `v` under `key`. A closed subject lets `v` go unnotified; a
    /// subject that has ended tells `v` how (error or completion) and lets it
    /// go; otherwise `v` is registered. Returns whether it was registered.
    pub fn subscribe_keyed(&mut self, key: u64, v: Subscriber<T, E>) -> (registered: bool)
        where
            E: Clone,
        requires
            old(self)@.wf(),
            v@.ready,
        ensures
            final(self)@.wf(),
            registered == old(self)@.live(),
            old(self)@.closed ==> final(self)@ == (RegistryView {
                released: old(self)@.released.push(v@),
                ..old(self)@
            }),
            !old(self)@.closed && old(self)@.completed ==> {
                &&& final(self)@ == (RegistryView { released: final(self)@.released, ..old(self)@ })
                &&& final(self)@.released.drop_last() == old(self)@.released
                &&& final(self)@.released.len() == old(self)@.released.len() + 1
                &&& late_outcome(v@, final(self)@.released.last(), old(self)@.error)
            },
            old(self)@.live() ==> final(self)@ == (RegistryView {
                observers: old(self)@.observers.push((key, v@)),
                ..old(self)@
            }),
            registry_step(old(self)@, final(self)@, SubjectCall::Subscribe(key)),
            old(self)@.keys_distinct() && !keys_of(old(self)@.observers).contains(key) ==> final(self)@.keys_distinct(),
    {
        if self.reg.is_closed() {
            self.reg.release(v);
            return false;
        }
        if self.reg.is_completed() {
            self.reg.notify_late(v);
            return false;
        }
        self.reg.register(key, v);
        true
    }

    /// Multicasts a clone of `v` to every observer, unless the subject has
    /// ended or is closed.
    pub fn emit_next(&mut self, v: T)
        where
            T: Clone,
        requires
            old(self)@.wf(),
        ensures
            final(self)@.wf(),
            !old(self)@.live() ==> final(self)@ == old(self)@,
            old(self)@.live() ==> super::registry::all_got_next(
                old(self)@.observers,
                final(self)@.observers,
                v,
            ),
            final(self)@ == (RegistryView { observers: final(self)@.observers, ..old(self)@ }),
            registry_step(old(self)@, final(self)@, SubjectCall::Next),
            old(self)@.keys_distinct() ==> final(self)@.keys_distinct(),
    {
        self.reg.next(&v);
    }

    /// Ends the stream with an error: every observer gets a clone of it and is
    /// let go. Nothing happens once the subject has ended or is closed.
    pub fn emit_error(&mut self, e: E)
        where
            E: Clone,
        requires
            old(self)@.wf(),
        ensures
            final(self)@.wf(),
            !old(self)@.live() ==> final(self)@ == old(self)@,
            old(self)@.live() ==> {
                &&& final(self)@.observers.len() == 0
                &&& final(self)@.completed
                &&& !final(self)@.closed
                &&& final(self)@.error == Some(e)
                &&& final(self)@.released.take(old(self)@.released.len() as int) == old(self)@.released
                &&& super::registry::all_got_error(
                    old(self)@.observers,
                    final(self)@.released.skip(old(self)@.released.len() as int),
                    e,
                )
            },
            registry_step(old(self)@, final(self)@, SubjectCall::Error),
            old(self)@.keys_distinct() ==> final(self)@.keys_distinct(),
    {
        self.reg.fail(e);
    }

    /// Completes the stream: every observer gets the completion and is let go.
    /// Nothing happens once the subject has ended or is closed.
    pub fn emit_complete(&mut self)
        requires
            old(self)@.wf(),
        ensures
            final(self)@.wf(),
            !old(self)@.live() ==> final(self)@ == old(self)@,
            old(self)@.live() ==> {
                &&& final(self)@.observers.len() == 0
                &&& final(self)@.completed
                &&& !final(self)@.closed
                &&& final(self)@.error is None
                &&& final(self)@.released.take(old(self)@.released.len() as int) == old(self)@.released
                &&& super::registry::all_got_complete(
                    old(self)@.observers,
                    final(self)@.released.skip(old(self)@.released.len() as int),
                )
            },
            registry_step(old(self)@, final(self)@, SubjectCall::Complete),
            old(self)@.keys_distinct() ==> final(self)@.keys_distinct(),
    {
        self.reg.finish();
    }

    /// Closes the subject: it stops multicasting and registering, and lets its
    /// observers go unnotified.
    pub fn close(&mut self)
        requires
            old(self)@.wf(),
        ensures
            final(self)@.wf(),
            final(self)@ == (RegistryView {
                observers: Seq::empty(),
                closed: true,
                released: old(self)@.released + super::registry::second(old(self)@.observers),
                ..old(self)@
            }),
            registry_step(old(self)@, final(self)@, SubjectCall::Close),
            old(self)@.keys_distinct() ==> final(self)@.keys_distinct(),
    {
        self.reg.close();
    }

    /// Number of registered observers.
    pub fn observer_count(&self) -> (r: usize)
        ensures
            r == self@.observers.len(),
    {
        self.reg.count()
    }
}

impl<T, E> Multicast for Subject<T, E> {
    type Settings = ();

    open spec fn keys_distinct(&self) -> bool {
        self@.keys_distinct()
    }

    open spec fn settings(&self) -> () {
        ()
    }

    open spec fn wf(&self) -> bool {
        self@.wf()
    }

    fn remove_observer(&mut self, key: u64)
        ensures
            final(self)@ == (RegistryView {
                observers: super::registry::without_key(old(self)@.observers, key),
                released: old(self)@.released + super::registry::second(
                    super::registry::with_key(old(self)@.observers, key),
                ),
                ..old(self)@
            }),
            registry_step(old(self)@, final(self)@, SubjectCall::Unsubscribe(key)),
            old(self)@.keys_distinct() ==> final(self)@.keys_distinct(),
    {
        self.reg.remove(key);
    }
}

impl<T, E> Subject<T, E> {
    /// Creates a subject and returns its emitter and its receiver, which share
    /// its state.
    pub fn emitter_receiver() -> (r: (SubjectEmitter<T, E>, SubjectReceiver<T, E>))
        ensures
            r.0.shared() == r.1.shared(),
    {
        let state = Subject::new();
        let lock = Arc::new(RwLock::new(state, Ghost(WellFormed { settings: () })));
        (SubjectEmitter { inner: lock.clone() }, SubjectReceiver { inner: lock })
    }
}

/// The receiving side of a `Subject`: observers subscribe to it.
#[derive(Clone)]
#[verifier::reject_recursive_types(T)]
#[verifier::reject_recursive_types(E)]
pub struct SubjectReceiver<T, E> {
    inner: Arc<SharedState<Subject<T, E>>>,
}

/// The emitting side of a `Subject`: what it is given goes to every
/// registered observer.
#[derive(Clone)]
#[verifier::reject_recursive_types(T)]
#[verifier::reject_recursive_types(E)]
pub struct SubjectEmitter<T, E> {
    inner: Arc<SharedState<Subject<T, E>>>,
}

impl<T, E> SubjectReceiver<T, E> {
    /// The lock holding the state this receiver shares.
    pub closed spec fn shared(&self) -> SharedState<Subject<T, E>> {
        *self.inner
    }
}

impl<T, E> SubjectEmitter<T, E> {
    /// The lock holding the state this emitter shares.
    pub closed spec fn shared(&self) -> SharedState<Subject<T, E>> {
        *self.inner
    }
}

impl<T, E: Clone> SubjectReceiver<T, E> {
    /// Number of registered observers at the time of the call.
    pub fn len(&self) -> usize {
        let handle = self.inner.acquire_read();
        let n = handle.borrow().observer_count();
        handle.release_read();
        n
    }

    /// Whether no observer is registered at the time of the call.
    pub fn is_empty(&self) -> bool {
        self.len() == 0
    }

    /// Subscribes `v` to the subject under a fresh random key (see
    /// `Subject::subscribe_keyed` for what happens to it).
    pub fn subscribe(&mut self, v: Subscriber<T, E>) -> (s: SubjectSubscription<Subject<T, E>>)
        requires
            v@.ready,
        ensures
            final(self).shared() == old(self).shared(),
            s.holds_registration() ==> s.registered_with() == old(self).shared(),
    {
        let (mut state, handle) = self.inner.acquire_write();
        let key = state.fresh_key(gen_key());
        let registered = state.subscribe_keyed(key, v);
        handle.release_write(state);
        if registered {
            SubjectSubscription { source: Some(self.inner.clone()), key }
        } else {
            SubjectSubscription { source: None, key }
        }
    }
}

impl<T, E> Fuse for SubjectReceiver<T, E> {

}

impl<T, E: Clone> Unsubscribeable for SubjectReceiver<T, E> {
    /// Closes the subject and drops its observers.
    fn unsubscribe(self) {
        let (mut state, handle) = self.inner.acquire_write();
        state.close();
        handle.release_write(state);
    }
}

impl<T: Clone, E: Clone> Observer for SubjectEmitter<T, E> {
    type NextFnType = T;

    type ErrorType = E;

    open spec fn observer_ready(&self) -> bool {
        true
    }

    fn next(&mut self, v: T) {
        let (mut state, handle) = self.inner.acquire_write();
        state.emit_next(v);
        handle.release_write(state);
    }

    fn error(&mut self, e: E) {
        let (mut state, handle) = self.inner.acquire_write();
        state.emit_error(e);
        handle.release_write(state);
    }

    fn complete(&mut self) {
        let (mut state, handle) = self.inner.acquire_write();
        state.emit_complete();
        handle.release_write(state);
    }
}

} // verus!
