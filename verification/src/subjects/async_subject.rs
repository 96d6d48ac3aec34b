//! `AsyncSubject`: a subject that keeps only the last value emitted and hands
//! it out, followed by the completion, once the stream completes.
use std::sync::Arc;
use vstd::prelude::*;
use vstd::rwlock::RwLock;

use super::registry::{
    all_got_complete, all_got_error, all_got_next, got_error_clone, got_next_clone, second,
    with_key, without_key, ObserverViews, Registry, RegistryView,
    keys_of, registry_step, SubjectCall,
};
use super::{gen_key, Multicast, SharedState, SubjectSubscription, WellFormed};
use crate::observer::Observer;
use crate::subscription::subscribe::{Fuse, Unsubscribeable};
use crate::subscription::subscribe::{Subscriber, SubscriberView};

verus! {

/// The state of an `AsyncSubject`: the last value emitted, its observers and
/// how it ended, if it has.
#[verifier::reject_recursive_types(T)]
#[verifier::reject_recursive_types(E)]
pub struct AsyncSubject<T, E> {
    value: Option<T>,
    reg: Registry<T, E>,
}

/// An `AsyncSubject` as the rules see it.
pub ghost struct AsyncView<T, E> {
    pub value: Option<T>,
    pub reg: RegistryView<T, E>,
}

impl<T, E> View for AsyncSubject<T, E> {
    type V = AsyncView<T, E>;

    closed spec fn view(&self) -> AsyncView<T, E> {
        AsyncView { value: self.value, reg: self.reg@ }
    }
}

/// What a subscriber arriving after the completion gets: a clone of the last
/// value, if there is one, then the completion.
pub open spec fn got_last_then_complete<T: Clone, E>(
    v: SubscriberView<T, E>,
    w: SubscriberView<T, E>,
    value: Option<T>,
) -> bool {
    match value {
        Some(x) => exists|mid: SubscriberView<T, E>|
            got_next_clone(v, mid, x) && w == mid.after_complete(),
        None => w == v.after_complete(),
    }
}

/// Every observer got a clone of the last value, if there is one, then the
/// completion; `new` lists their final states.
pub open spec fn all_got_last_then_complete<T: Clone, E>(
    old: ObserverViews<T, E>,
    new: Seq<SubscriberView<T, E>>,
    value: Option<T>,
) -> bool {
    match value {
        Some(x) => exists|mid: ObserverViews<T, E>|
            all_got_next(old, mid, x) && all_got_complete(mid, new),
        None => all_got_complete(old, new),
    }
}

impl<T, E> AsyncSubject<T, E> {
    /// An async subject with no value and no observers, not ended.
    pub fn new() -> (s: Self)
        ensures
            s@.value is None,
            s@.reg.observers.len() == 0,
            s@.reg.live(),
            s@.reg.error is None,
            s@.reg.released.len() == 0,
            s@.reg.wf(),
    {
        AsyncSubject { value: None, reg: Registry::new() }
    }

    /// A key under which no observer is registered: `candidate` itself when
    /// it is free.
    pub fn fresh_key(&self, candidate: u64) -> (k: u64)
        ensures
            !keys_of(self@.reg.observers).contains(k),
            !keys_of(self@.reg.observers).contains(candidate) ==> k == candidate,
    {
        self.reg.fresh_key(candidate)
    }

    /// Subscribes `v` under `key`. A closed subject lets `v` go unnotified; a
    /// subject that ended with an error hands `v` the error and lets it go; a
    /// completed subject hands `v` its last value, if any, then the
    /// completion, and lets it go; otherwise `v` is registered (and gets
    /// nothing yet). Returns whether it was registered.
    pub fn subscribe_keyed(&mut self, key: u64, v: Subscriber<T, E>) -> (registered: bool)
        where
            T: Clone,
            E: Clone,
        requires
            old(self)@.reg.wf(),
            v@.ready,
        ensures
            final(self)@.reg.wf(),
            final(self)@.value == old(self)@.value,
            registered == old(self)@.reg.live(),
            old(self)@.reg.closed ==> final(self)@.reg == (RegistryView {
                released: old(self)@.reg.released.push(v@),
                ..old(self)@.reg
            }),
            !old(self)@.reg.closed && old(self)@.reg.completed ==> {
                &&& final(self)@.reg == (RegistryView {
                    released: final(self)@.reg.released,
                    ..old(self)@.reg
                })
                &&& final(self)@.reg.released.drop_last() == old(self)@.reg.released
                &&& final(self)@.reg.released.len() == old(self)@.reg.released.len() + 1
                &&& match old(self)@.reg.error {
                    Some(e) => got_error_clone(v@, final(self)@.reg.released.last(), e),
                    None => got_last_then_complete(v@, final(self)@.reg.released.last(), old(self)@.value),
                }
            },
            old(self)@.reg.live() ==> final(self)@.reg == (RegistryView {
                observers: old(self)@.reg.observers.push((key, v@)),
                ..old(self)@.reg
            }),
            registry_step(old(self)@.reg, final(self)@.reg, SubjectCall::Subscribe(key)),
            old(self)@.reg.keys_distinct() && !keys_of(old(self)@.reg.observers).contains(key) ==> final(self)@.reg.keys_distinct(),
    {
        if self.reg.is_closed() {
            self.reg.release(v);
            return false;
        }
        if self.reg.is_completed() {
            let mut v = v;
            if self.reg.error_is_none() {
                match &self.value {
                    Some(x) => {
                        let c = x.clone();
                        let ghost before = v@;
                        v.deliver_next(c);
                        proof {
                            assert(got_next_clone(before, v@, *x));
                        }
                    },
                    None => {},
                }
            }
            self.reg.notify_late(v);
            return false;
        }
        self.reg.register(key, v);
        true
    }

    /// Keeps `v` as the last value, unless the subject has ended or is closed.
    /// Nothing is multicast yet.
    pub fn emit_next(&mut self, v: T)
        requires
            old(self)@.reg.wf(),
        ensures
            final(self)@.reg == old(self)@.reg,
            final(self)@.value == if old(self)@.reg.live() {
                Some(v)
            } else {
                old(self)@.value
            },
            registry_step(old(self)@.reg, final(self)@.reg, SubjectCall::Next),
            old(self)@.reg.keys_distinct() ==> final(self)@.reg.keys_distinct(),
    {
        if self.reg.is_closed() || self.reg.is_completed() {
            return;
        }
        self.value = Some(v);
    }

    /// Ends the stream with an error: every observer gets a clone of it and is
    /// let go. Nothing happens once the subject has ended or is closed.
    pub fn emit_error(&mut self, e: E)
        where
            E: Clone,
        requires
            old(self)@.reg.wf(),
        ensures
            final(self)@.reg.wf(),
            final(self)@.value == old(self)@.value,
            !old(self)@.reg.live() ==> final(self)@ == old(self)@,
            old(self)@.reg.live() ==> {
                &&& final(self)@.reg.observers.len() == 0
                &&& final(self)@.reg.completed
                &&& !final(self)@.reg.closed
                &&& final(self)@.reg.error == Some(e)
                &&& final(self)@.reg.released.take(old(self)@.reg.released.len() as int)
                    == old(self)@.reg.released
                &&& all_got_error(
                    old(self)@.reg.observers,
                    final(self)@.reg.released.skip(old(self)@.reg.released.len() as int),
                    e,
                )
            },
            registry_step(old(self)@.reg, final(self)@.reg, SubjectCall::Error),
            old(self)@.reg.keys_distinct() ==> final(self)@.reg.keys_distinct(),
    {
        self.reg.fail(e);
    }

    /// Completes the stream: every observer gets a clone of the last value, if
    /// there is one, then the completion, and is let go. Nothing happens once
    /// the subject has ended or is closed.
    pub fn emit_complete(&mut self)
        where
            T: Clone,
        requires
            old(self)@.reg.wf(),
        ensures
            final(self)@.reg.wf(),
            final(self)@.value == old(self)@.value,
            !old(self)@.reg.live() ==> final(self)@ == old(self)@,
            old(self)@.reg.live() ==> {
                &&& final(self)@.reg.observers.len() == 0
                &&& final(self)@.reg.completed
                &&& !final(self)@.reg.closed
                &&& final(self)@.reg.error is None
                &&& final(self)@.reg.released.take(old(self)@.reg.released.len() as int)
                    == old(self)@.reg.released
                &&& all_got_last_then_complete(
                    old(self)@.reg.observers,
                    final(self)@.reg.released.skip(old(self)@.reg.released.len() as int),
                    old(self)@.value,
                )
            },
            registry_step(old(self)@.reg, final(self)@.reg, SubjectCall::Complete),
            old(self)@.reg.keys_distinct() ==> final(self)@.reg.keys_distinct(),
    {
        if self.reg.is_closed() || self.reg.is_completed() {
            return;
        }
        match &self.value {
            Some(x) => {
                self.reg.next(x);
            },
            None => {},
        }
        let ghost mid = self.reg@.observers;
        self.reg.finish();
        proof {
            if self@.value is Some {
                assert(all_got_next(old(self)@.reg.observers, mid, self@.value->0));
            }
        }
    }

    /// Closes the subject: it stops registering, and lets its observers go
    /// unnotified.
    pub fn close(&mut self)
        requires
            old(self)@.reg.wf(),
        ensures
            final(self)@.reg.wf(),
            final(self)@.value == old(self)@.value,
            final(self)@.reg == (RegistryView {
                observers: Seq::empty(),
                closed: true,
                released: old(self)@.reg.released + second(old(self)@.reg.observers),
                ..old(self)@.reg
            }),
            registry_step(old(self)@.reg, final(self)@.reg, SubjectCall::Close),
            old(self)@.reg.keys_distinct() ==> final(self)@.reg.keys_distinct(),
    {
        self.reg.close();
    }

    /// Number of registered observers.
    pub fn observer_count(&self) -> (r: usize)
        ensures
            r == self@.reg.observers.len(),
    {
        self.reg.count()
    }
}

impl<T, E> Multicast for AsyncSubject<T, E> {
    type Settings = ();

    open spec fn keys_distinct(&self) -> bool {
        self@.reg.keys_distinct()
    }

    open spec fn settings(&self) -> () {
        ()
    }

    open spec fn wf(&self) -> bool {
        self@.reg.wf()
    }

    fn remove_observer(&mut self, key: u64)
        ensures
            final(self)@.value == old(self)@.value,
            final(self)@.reg == (RegistryView {
                observers: without_key(old(self)@.reg.observers, key),
                released: old(self)@.reg.released + second(with_key(old(self)@.reg.observers, key)),
                ..old(self)@.reg
            }),
            registry_step(old(self)@.reg, final(self)@.reg, SubjectCall::Unsubscribe(key)),
            old(self)@.reg.keys_distinct() ==> final(self)@.reg.keys_distinct(),
    {
        self.reg.remove(key);
    }
}

impl<T, E> AsyncSubject<T, E> {
    /// Creates an async subject and returns its emitter and its receiver,
    /// which share its state.
    pub fn emitter_receiver() -> (r: (AsyncSubjectEmitter<T, E>, AsyncSubjectReceiver<T, E>))
        ensures
            r.0.shared() == r.1.shared(),
    {
        let state = AsyncSubject::new();
        let lock = Arc::new(RwLock::new(state, Ghost(WellFormed { settings: () })));
        (AsyncSubjectEmitter { inner: lock.clone() }, AsyncSubjectReceiver { inner: lock })
    }
}

/// The receiving side of an `AsyncSubject`: observers subscribe to it.
#[derive(Clone)]
#[verifier::reject_recursive_types(T)]
#[verifier::reject_recursive_types(E)]
pub struct AsyncSubjectReceiver<T, E> {
    inner: Arc<SharedState<AsyncSubject<T, E>>>,
}

/// The emitting side of an `AsyncSubject`.
#[derive(Clone)]
#[verifier::reject_recursive_types(T)]
#[verifier::reject_recursive_types(E)]
pub struct AsyncSubjectEmitter<T, E> {
    inner: Arc<SharedState<AsyncSubject<T, E>>>,
}

impl<T, E> AsyncSubjectReceiver<T, E> {
    /// The lock holding the state this receiver shares.
    pub closed spec fn shared(&self) -> SharedState<AsyncSubject<T, E>> {
        *self.inner
    }
}

impl<T, E> AsyncSubjectEmitter<T, E> {
    /// The lock holding the state this emitter shares.
    pub closed spec fn shared(&self) -> SharedState<AsyncSubject<T, E>> {
        *self.inner
    }
}

impl<T, E> AsyncSubjectReceiver<T, E> {
    /// Number of registered observers at the time of the call.
    pub fn len(&self) -> usize {
        let handle = self.inner.acquire_read();
        let n = handle.borrow().observer_count();
        handle.release_read();
        n
    }

    /// Subscribes `v` under a fresh random key (see
    /// `AsyncSubject::subscribe_keyed` for what happens to it).
    pub fn subscribe(&mut self, v: Subscriber<T, E>) -> (s: SubjectSubscription<AsyncSubject<T, E>>)
        where
            T: Clone,
            E: Clone,
        requires
            v@.ready,
        ensures
            final(self).shared() == old(self).shared(),
            s.holds_registration() ==> s.registered_with() == old(self).shared(),
    {
        let (mut state, handle) = self.inner.acquire_write();
        let key = state.fresh_key(gen_key());
        let registered = state.subscribe_keyed(key, v);
        handle.release_write(state);
        if registered {
            SubjectSubscription { source: Some(self.inner.clone()), key }
        } else {
            SubjectSubscription { source: None, key }
        }
    }
}

impl<T, E> Fuse for AsyncSubjectReceiver<T, E> {

}

impl<T, E> Unsubscribeable for AsyncSubjectReceiver<T, E> {
    /// Closes the subject and drops its observers.
    fn unsubscribe(self) {
        let (mut state, handle) = self.inner.acquire_write();
        state.close();
        handle.release_write(state);
    }
}

impl<T: Clone, E: Clone> Observer for AsyncSubjectEmitter<T, E> {
    type NextFnType = T;

    type ErrorType = E;

    open spec fn observer_ready(&self) -> bool {
        true
    }

    fn next(&mut self, v: T) {
        let (mut state, handle) = self.inner.acquire_write();
        state.emit_next(v);
        handle.release_write(state);
    }

    fn error(&mut self, e: E) {
        let (mut state, handle) = self.inner.acquire_write();
        state.emit_error(e);
        handle.release_write(state);
    }

    fn complete(&mut self) {
        let (mut state, handle) = self.inner.acquire_write();
        state.emit_complete();
        handle.release_write(state);
    }
}

} // verus!
