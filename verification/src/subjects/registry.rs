//! The part that all subject variants share: the registered observers, the
//! terminal state, and the rules for broadcasting and for late subscribers.
use vstd::prelude::*;

use crate::subscription::subscribe::{Notification, Subscriber, SubscriberView};

verus! {

/// The registered observers as the rules see them: key and subscriber state.
pub type ObserverViews<T, E> = Seq<(u64, SubscriberView<T, E>)>;

pub open spec fn views_of<T, E>(obs: Seq<(u64, Subscriber<T, E>)>) -> ObserverViews<T, E> {
    obs.map_values(|p: (u64, Subscriber<T, E>)| (p.0, p.1@))
}

pub open spec fn all_ready<T, E>(obs: ObserverViews<T, E>) -> bool {
    forall|i: int| 0 <= i < obs.len() ==> (#[trigger] obs[i]).1.ready
}

/// `new` is `old` after being offered a clone of `v`.
pub open spec fn got_next_clone<T: Clone, E>(
    old: SubscriberView<T, E>,
    new: SubscriberView<T, E>,
    v: T,
) -> bool {
    if old.next_open() {
        new.log.len() > 0 && (new.log.last() matches Notification::Next(w) && cloned(v, w)
            && new == old.after_next(w))
    } else {
        new == old
    }
}

/// `new` is `old` after being offered a clone of the error `e`.
pub open spec fn got_error_clone<T, E: Clone>(
    old: SubscriberView<T, E>,
    new: SubscriberView<T, E>,
    e: E,
) -> bool {
    if old.terminal_open() && old.has_error_fn {
        new.log.len() > 0 && (new.log.last() matches Notification::Error(w) && cloned(e, w)
            && new == old.after_error(w))
    } else {
        new == old.after_error(e)
    }
}

/// Every observer of `new` is the one of `old` (same key), after being offered
/// a clone of `v`.
pub open spec fn all_got_next<T: Clone, E>(
    old: ObserverViews<T, E>,
    new: ObserverViews<T, E>,
    v: T,
) -> bool {
    &&& new.len() == old.len()
    &&& forall|i: int|
        0 <= i < old.len() ==> (#[trigger] new[i]).0 == old[i].0 && got_next_clone(
            old[i].1,
            new[i].1,
            v,
        )
}

/// The subscriber states in `new` are those of `old`, each after being offered
/// a clone of the error `e`.
pub open spec fn all_got_error<T, E: Clone>(
    old: ObserverViews<T, E>,
    new: Seq<SubscriberView<T, E>>,
    e: E,
) -> bool {
    &&& new.len() == old.len()
    &&& forall|i: int| 0 <= i < old.len() ==> got_error_clone(old[i].1, #[trigger] new[i], e)
}

/// The subscriber states in `new` are those of `old`, each after being offered
/// the completion.
pub open spec fn all_got_complete<T, E>(
    old: ObserverViews<T, E>,
    new: Seq<SubscriberView<T, E>>,
) -> bool {
    &&& new.len() == old.len()
    &&& forall|i: int| 0 <= i < old.len() ==> #[trigger] new[i] == old[i].1.after_complete()
}

/// The observers of `s` whose key is not `key`, in order.
pub open spec fn without_key<V>(s: Seq<(u64, V)>, key: u64) -> Seq<(u64, V)>
    decreases s.len(),
{
    if s.len() == 0 {
        s
    } else if s.last().0 == key {
        without_key(s.drop_last(), key)
    } else {
        without_key(s.drop_last(), key).push(s.last())
    }
}

/// The observers of `s` whose key is `key`, in order.
pub open spec fn with_key<V>(s: Seq<(u64, V)>, key: u64) -> Seq<(u64, V)>
    decreases s.len(),
{
    if s.len() == 0 {
        s
    } else if s.last().0 == key {
        with_key(s.drop_last(), key).push(s.last())
    } else {
        with_key(s.drop_last(), key)
    }
}

pub open spec fn second<V>(s: Seq<(u64, V)>) -> Seq<V> {
    s.map_values(|p: (u64, V)| p.1)
}

/// Offers a clone of `v` to every observer, in order.
pub fn broadcast_next<T: Clone, E>(obs: &mut Vec<(u64, Subscriber<T, E>)>, v: &T)
    requires
        all_ready(views_of(old(obs)@)),
    ensures
        all_ready(views_of(final(obs)@)),
        all_got_next(views_of(old(obs)@), views_of(final(obs)@), *v),
{
    let n = obs.len();
    let mut i: usize = 0;
    while i < n
        invariant
            n == obs.len(),
            old(obs)@.len() == n,
            0 <= i <= n,
            all_ready(views_of(obs@)),
            forall|j: int|
                0 <= j < i ==> (#[trigger] obs@[j]).0 == old(obs)@[j].0 && got_next_clone(
                    old(obs)@[j].1@,
                    obs@[j].1@,
                    *v,
                ),
            forall|j: int| i <= j < n ==> #[trigger] obs@[j] == old(obs)@[j],
        decreases n - i,
    {
        let c = v.clone();
        let ghost prev = obs@;
        proof {
            assert(views_of(prev)[i as int].1.ready);
        }
        obs[i].1.deliver_next(c);
        proof {
            assert forall|j: int| 0 <= j < obs@.len() implies (#[trigger] views_of(obs@)[j]).1.ready by {
                assert(views_of(prev)[j].1.ready);
                if j != i {
                    assert(obs@[j] == prev[j]);
                }
            }
        }
        i = i + 1;
    }
}


/// Offers a clone of the error `e` to every observer, in order.
fn broadcast_error<T, E: Clone>(obs: &mut Vec<(u64, Subscriber<T, E>)>, e: &E)
    requires
        all_ready(views_of(old(obs)@)),
    ensures
        all_ready(views_of(final(obs)@)),
        all_got_error(views_of(old(obs)@), second(views_of(final(obs)@)), *e),
{
    let n = obs.len();
    let mut i: usize = 0;
    while i < n
        invariant
            n == obs.len(),
            old(obs)@.len() == n,
            0 <= i <= n,
            all_ready(views_of(obs@)),
            forall|j: int|
                0 <= j < i ==> got_error_clone(old(obs)@[j].1@, (#[trigger] obs@[j]).1@, *e),
            forall|j: int| i <= j < n ==> #[trigger] obs@[j] == old(obs)@[j],
        decreases n - i,
    {
        let c = e.clone();
        let ghost prev = obs@;
        proof {
            assert(views_of(prev)[i as int].1.ready);
        }
        obs[i].1.deliver_error(c);
        proof {
            assert forall|j: int| 0 <= j < obs@.len() implies (#[trigger] views_of(obs@)[j]).1.ready by {
                assert(views_of(prev)[j].1.ready);
                if j != i {
                    assert(obs@[j] == prev[j]);
                }
            }
        }
        i = i + 1;
    }
    proof {
        let nv = second(views_of(obs@));
        assert forall|j: int| 0 <= j < n implies got_error_clone(
            views_of(old(obs)@)[j].1,
            #[trigger] nv[j],
            *e,
        ) by {
            assert(nv[j] == obs@[j].1@);
        }
    }
}

/// Offers the completion to every observer, in order.
fn broadcast_complete<T, E>(obs: &mut Vec<(u64, Subscriber<T, E>)>)
    requires
        all_ready(views_of(old(obs)@)),
    ensures
        all_ready(views_of(final(obs)@)),
        all_got_complete(views_of(old(obs)@), second(views_of(final(obs)@))),
{
    let n = obs.len();
    let mut i: usize = 0;
    while i < n
        invariant
            n == obs.len(),
            old(obs)@.len() == n,
            0 <= i <= n,
            all_ready(views_of(obs@)),
            forall|j: int|
                0 <= j < i ==> (#[trigger] obs@[j]).1@ == old(obs)@[j].1@.after_complete(),
            forall|j: int| i <= j < n ==> #[trigger] obs@[j] == old(obs)@[j],
        decreases n - i,
    {
        let ghost prev = obs@;
        proof {
            assert(views_of(prev)[i as int].1.ready);
        }
        obs[i].1.deliver_complete();
        proof {
            assert forall|j: int| 0 <= j < obs@.len() implies (#[trigger] views_of(obs@)[j]).1.ready by {
                assert(views_of(prev)[j].1.ready);
                if j != i {
                    assert(obs@[j] == prev[j]);
                }
            }
        }
        i = i + 1;
    }
    proof {
        let nv = second(views_of(obs@));
        assert forall|j: int| 0 <= j < n implies #[trigger] nv[j] == views_of(old(obs)@)[j].1.after_complete() by {
            assert(nv[j] == obs@[j].1@);
        }
    }
}

proof fn lemma_without_key_ready<T, E>(s: ObserverViews<T, E>, key: u64)
    requires
        all_ready(s),
    ensures
        all_ready(without_key(s, key)),
    decreases s.len(),
{
    if s.len() > 0 {
        assert(all_ready(s.drop_last()));
        lemma_without_key_ready(s.drop_last(), key);
    }
}

/// What a subscriber that arrives after the end gets: the error if the
/// stream failed, the completion otherwise.
pub open spec fn late_outcome<T, E: Clone>(
    v: SubscriberView<T, E>,
    w: SubscriberView<T, E>,
    error: Option<E>,
) -> bool {
    match error {
        Some(e) => got_error_clone(v, w, e),
        None => w == v.after_complete(),
    }
}

/// The observers of a subject and its terminal state.
#[verifier::reject_recursive_types(T)]
#[verifier::reject_recursive_types(E)]
pub struct Registry<T, E> {
    observers: Vec<(u64, Subscriber<T, E>)>,
    completed: bool,
    closed: bool,
    error: Option<E>,
    released: Ghost<Seq<SubscriberView<T, E>>>,
}

/// The registry as the rules see it. `released` lists, in order, the final
/// state of every subscriber the registry let go.
pub ghost struct RegistryView<T, E> {
    pub observers: ObserverViews<T, E>,
    pub completed: bool,
    pub closed: bool,
    pub error: Option<E>,
    pub released: Seq<SubscriberView<T, E>>,
}

impl<T, E> RegistryView<T, E> {
    pub open spec fn wf(self) -> bool {
        &&& all_ready(self.observers)
        &&& (self.completed || self.closed ==> self.observers.len() == 0)
        &&& (self.error is Some ==> self.completed)
    }

    /// No two registered observers share a key, so unsubscribing one
    /// subscription drops exactly one observer.
    pub open spec fn keys_distinct(self) -> bool {
        keys_of(self.observers).no_duplicates()
    }

    /// Whether the subject still multicasts.
    pub open spec fn live(self) -> bool {
        !self.completed && !self.closed
    }
}

impl<T, E> View for Registry<T, E> {
    type V = RegistryView<T, E>;

    closed spec fn view(&self) -> RegistryView<T, E> {
        RegistryView {
            observers: views_of(self.observers@),
            completed: self.completed,
            closed: self.closed,
            error: self.error,
            released: self.released@,
        }
    }
}

impl<T, E> Registry<T, E> {
    pub fn new() -> (r: Self)
        ensures
            r@.observers.len() == 0,
            !r@.completed,
            !r@.closed,
            r@.error is None,
            r@.released.len() == 0,
            r@.wf(),
            r@.keys_distinct(),
    {
        Registry {
            observers: Vec::new(),
            completed: false,
            closed: false,
            error: None,
            released: Ghost(Seq::empty()),
        }
    }

    pub fn is_closed(&self) -> (r: bool)
        ensures
            r == self@.closed,
    {
        self.closed
    }

    pub fn is_completed(&self) -> (r: bool)
        ensures
            r == self@.completed,
    {
        self.completed
    }

    /// Whether the stream has not ended with an error.
    pub fn error_is_none(&self) -> (r: bool)
        ensures
            r == (self@.error is None),
    {
        self.error.is_none()
    }

    /// Whether an observer is registered under `key`.
    pub fn has_key(&self, key: u64) -> (r: bool)
        ensures
            r == keys_of(self@.observers).contains(key),
    {
        let n = self.observers.len();
        let mut i: usize = 0;
        while i < n
            invariant
                0 <= i <= n,
                n == self.observers@.len(),
                forall|j: int| 0 <= j < i ==> (#[trigger] keys_of(views_of(self.observers@))[j]) != key,
            decreases n - i,
        {
            if self.observers[i].0 == key {
                proof {
                    assert(keys_of(views_of(self.observers@))[i as int] == key);
                }
                return true;
            }
            i = i + 1;
        }
        false
    }

    /// A key under which no observer is registered: `candidate` itself when
    /// it is free, otherwise the least free key, which is at most the number
    /// of registered observers.
    pub fn fresh_key(&self, candidate: u64) -> (k: u64)
        ensures
            !keys_of(self@.observers).contains(k),
            !keys_of(self@.observers).contains(candidate) ==> k == candidate,
    {
        if !self.has_key(candidate) {
            return candidate;
        }
        let n = self.observers.len() as u64;
        let mut c: u64 = 0;
        while c < n
            invariant
                0 <= c <= n,
                n == self@.observers.len(),
                forall|x: int| 0 <= x < c ==> keys_of(self@.observers).contains(#[trigger] (x as u64)),
                keys_of(self@.observers).contains(candidate),
            decreases n - c,
        {
            if !self.has_key(c) {
                return c;
            }
            c = c + 1;
        }
        if !self.has_key(n) {
            return n;
        }
        proof {
            lemma_free_key_in_range(keys_of(self@.observers));
        }
        n
    }

    /// Number of registered observers.
    pub fn count(&self) -> (r: usize)
        ensures
            r == self@.observers.len(),
    {
        self.observers.len()
    }

    /// Registers an observer under `key`.
    pub fn register(&mut self, key: u64, v: Subscriber<T, E>)
        requires
            old(self)@.wf(),
            old(self)@.live(),
            v@.ready,
        ensures
            final(self)@ == (RegistryView { observers: old(self)@.observers.push((key, v@)), ..old(self)@ }),
            final(self)@.wf(),
            registry_step(old(self)@, final(self)@, SubjectCall::Subscribe(key)),
            old(self)@.keys_distinct() && !keys_of(old(self)@.observers).contains(key) ==> final(self)@.keys_distinct(),
    {
        proof {
            lemma_keys_push(old(self)@.observers, (key, v@));
            if old(self)@.keys_distinct() && !keys_of(old(self)@.observers).contains(key) {
                lemma_push_fresh_distinct(keys_of(old(self)@.observers), key);
            }
        }
        let ghost prev = self.observers@;
        self.observers.push((key, v));
        proof {
            assert(views_of(self.observers@) =~= views_of(prev).push((key, v@)));
        }
    }

    /// Lets a subscriber go without notifying it.
    pub fn release(&mut self, v: Subscriber<T, E>)
        ensures
            final(self)@ == (RegistryView { released: old(self)@.released.push(v@), ..old(self)@ }),
    {
        proof {
            self.released@ = self.released@.push(v@);
        }
    }

    /// Tells a subscriber that arrives after the end how the stream ended, and
    /// lets it go.
    pub fn notify_late(&mut self, v: Subscriber<T, E>)
        where
            E: Clone,
        requires
            old(self)@.completed,
            v@.ready,
        ensures
            final(self)@.released.len() == old(self)@.released.len() + 1,
            final(self)@.released.drop_last() == old(self)@.released,
            late_outcome(v@, final(self)@.released.last(), old(self)@.error),
            final(self)@ == (RegistryView { released: final(self)@.released, ..old(self)@ }),
    {
        let mut v = v;
        match &self.error {
            Some(err) => {
                let c = err.clone();
                v.deliver_error(c);
            },
            None => {
                v.deliver_complete();
            },
        }
        proof {
            self.released@ = self.released@.push(v@);
        }
    }

    /// Offers a clone of `v` to every observer while the subject is live.
    pub fn next(&mut self, v: &T)
        where
            T: Clone,
        requires
            old(self)@.wf(),
        ensures
            final(self)@.wf(),
            !old(self)@.live() ==> final(self)@ == old(self)@,
            old(self)@.live() ==> all_got_next(old(self)@.observers, final(self)@.observers, *v),
            final(self)@ == (RegistryView { observers: final(self)@.observers, ..old(self)@ }),
            registry_step(old(self)@, final(self)@, SubjectCall::Next),
            old(self)@.keys_distinct() ==> final(self)@.keys_distinct(),
    {
        if self.completed || self.closed {
            return;
        }
        broadcast_next(&mut self.observers, v);
        proof {
            lemma_keys_same(old(self)@.observers, views_of(self.observers@));
        }
    }

    /// Offers the error to every observer, ends the stream with it, and lets
    /// the observers go; nothing happens once the stream has ended or the
    /// subject is closed.
    pub fn fail(&mut self, e: E)
        where
            E: Clone,
        requires
            old(self)@.wf(),
        ensures
            final(self)@.wf(),
            !old(self)@.live() ==> final(self)@ == old(self)@,
            old(self)@.live() ==> {
                &&& final(self)@.observers.len() == 0
                &&& final(self)@.completed
                &&& !final(self)@.closed
                &&& final(self)@.error == Some(e)
                &&& final(self)@.released.take(old(self)@.released.len() as int) == old(self)@.released
                &&& all_got_error(
                    old(self)@.observers,
                    final(self)@.released.skip(old(self)@.released.len() as int),
                    e,
                )
            },
            registry_step(old(self)@, final(self)@, SubjectCall::Error),
            old(self)@.keys_distinct() ==> final(self)@.keys_distinct(),
    {
        if self.completed || self.closed {
            return;
        }
        broadcast_error(&mut self.observers, &e);
        self.completed = true;
        self.error = Some(e);
        let ghost old_released = self.released@;
        proof {
            self.released@ = self.released@ + second(views_of(self.observers@));
            assert(self.released@.take(old_released.len() as int) =~= old_released);
            assert(self.released@.skip(old_released.len() as int) =~= second(views_of(self.observers@)));
        }
        self.observers.clear();
        proof {
            assert(views_of(self.observers@) =~= Seq::empty());
            assert(keys_of(views_of(self.observers@)) =~= Seq::<u64>::empty());
        }
    }

    /// Offers the completion to every observer, ends the stream, and lets the
    /// observers go; nothing happens once the stream has ended or the subject
    /// is closed.
    pub fn finish(&mut self)
        requires
            old(self)@.wf(),
        ensures
            final(self)@.wf(),
            !old(self)@.live() ==> final(self)@ == old(self)@,
            old(self)@.live() ==> {
                &&& final(self)@.observers.len() == 0
                &&& final(self)@.completed
                &&& !final(self)@.closed
                &&& final(self)@.error is None
                &&& final(self)@.released.take(old(self)@.released.len() as int) == old(self)@.released
                &&& all_got_complete(
                    old(self)@.observers,
                    final(self)@.released.skip(old(self)@.released.len() as int),
                )
            },
            registry_step(old(self)@, final(self)@, SubjectCall::Complete),
            old(self)@.keys_distinct() ==> final(self)@.keys_distinct(),
    {
        if self.completed || self.closed {
            return;
        }
        broadcast_complete(&mut self.observers);
        self.completed = true;
        let ghost old_released = self.released@;
        proof {
            self.released@ = self.released@ + second(views_of(self.observers@));
            assert(self.released@.take(old_released.len() as int) =~= old_released);
            assert(self.released@.skip(old_released.len() as int) =~= second(views_of(self.observers@)));
        }
        self.observers.clear();
        proof {
            assert(views_of(self.observers@) =~= Seq::empty());
            assert(keys_of(views_of(self.observers@)) =~= Seq::<u64>::empty());
        }
    }

    /// Drops the registration made under `key`, letting those observers go
    /// without notifying them.
    pub fn remove(&mut self, key: u64)
        requires
            old(self)@.wf(),
        ensures
            final(self)@.wf(),
            final(self)@ == (RegistryView {
                observers: without_key(old(self)@.observers, key),
                released: old(self)@.released + second(with_key(old(self)@.observers, key)),
                ..old(self)@
            }),
            registry_step(old(self)@, final(self)@, SubjectCall::Unsubscribe(key)),
            old(self)@.keys_distinct() ==> final(self)@.keys_distinct(),
    {
        proof {
            lemma_keys_without_key(old(self)@.observers, key);
            lemma_remove_key_distinct(keys_of(old(self)@.observers), key);
        }
        let mut rest: Vec<(u64, Subscriber<T, E>)> = Vec::new();
        std::mem::swap(&mut rest, &mut self.observers);
        let ghost all = views_of(rest@);
        let ghost released0 = self.released@;
        let n = rest.len();
        let mut i: usize = 0;
        proof {
            assert(all.take(0) =~= Seq::<(u64, SubscriberView<T, E>)>::empty());
            assert(views_of(self.observers@) =~= Seq::empty());
            assert(second(with_key(all.take(0), key)) =~= Seq::empty());
            assert(self.released@ =~= released0 + second(with_key(all.take(0), key)));
        }
        while i < n
            invariant
                0 <= i <= n,
                n == all.len(),
                views_of(rest@) == all.skip(i as int),
                rest@.len() == n - i,
                views_of(self.observers@) == without_key(all.take(i as int), key),
                self.released@ == released0 + second(with_key(all.take(i as int), key)),
                all_ready(all),
                self.completed == old(self).completed,
                self.closed == old(self).closed,
                self.error == old(self).error,
            decreases n - i,
        {
            let ghost prev_rest = rest@;
            let ghost prev_obs = self.observers@;
            let p = rest.remove(0);
            proof {
                assert(views_of(prev_rest)[0] == all[i as int]);
                assert(rest@ =~= prev_rest.subrange(1, prev_rest.len() as int));
                assert forall|j: int| 0 <= j < rest@.len() implies #[trigger] views_of(rest@)[j] == all.skip(i + 1)[j] by {
                    assert(views_of(rest@)[j] == views_of(prev_rest)[j + 1]);
                    assert(all.skip(i as int)[j + 1] == all.skip(i + 1)[j]);
                }
                assert(views_of(rest@) =~= all.skip(i + 1));
                assert(all.take(i + 1).drop_last() =~= all.take(i as int));
                assert(all.take(i + 1).last() == all[i as int]);
                assert((p.0, p.1@) == all[i as int]);
            }
            if p.0 == key {
                proof {
                    self.released@ = self.released@.push(p.1@);
                    assert(second(with_key(all.take(i + 1), key)) =~= second(
                        with_key(all.take(i as int), key),
                    ).push(p.1@));
                }
            } else {
                self.observers.push(p);
                proof {
                    assert(views_of(self.observers@) =~= views_of(prev_obs).push(all[i as int]));
                }
            }
            i = i + 1;
        }
        proof {
            assert(all.take(n as int) =~= all);
            lemma_without_key_ready(all, key);
        }
    }

    /// Closes the subject: it stops emitting and registering, and lets its
    /// observers go without notifying them.
    pub fn close(&mut self)
        requires
            old(self)@.wf(),
        ensures
            final(self)@.wf(),
            final(self)@ == (RegistryView {
                observers: Seq::empty(),
                closed: true,
                released: old(self)@.released + second(old(self)@.observers),
                ..old(self)@
            }),
            registry_step(old(self)@, final(self)@, SubjectCall::Close),
            old(self)@.keys_distinct() ==> final(self)@.keys_distinct(),
    {
        self.closed = true;
        proof {
            self.released@ = self.released@ + second(views_of(self.observers@));
        }
        self.observers.clear();
        proof {
            assert(views_of(self.observers@) =~= Seq::empty());
            assert(keys_of(views_of(self.observers@)) =~= Seq::<u64>::empty());
        }
    }
}


// ---------------------------------------------------------------- histories

/// A call made on a subject, as far as its registered observers are
/// concerned: subscribing under a key, unsubscribing the subscription made
/// under a key, emitting a value, completing, failing, or closing it (the
/// receiver's `unsubscribe`).
pub enum SubjectCall {
    Subscribe(u64),
    Unsubscribe(u64),
    Next,
    Complete,
    Error,
    Close,
}

/// The keys of the registered observers, in order.
pub open spec fn keys_of<V>(obs: Seq<(u64, V)>) -> Seq<u64> {
    obs.map_values(|p: (u64, V)| p.0)
}

/// `keys` without the occurrences of `key`, in order.
pub open spec fn remove_key(keys: Seq<u64>, key: u64) -> Seq<u64>
    decreases keys.len(),
{
    if keys.len() == 0 {
        keys
    } else if keys.last() == key {
        remove_key(keys.drop_last(), key)
    } else {
        remove_key(keys.drop_last(), key).push(keys.last())
    }
}

/// The registered keys and whether the subject is live, after `c`:
/// subscribing adds the key while the subject is live; unsubscribing drops
/// that key; completing or failing a live subject ends it and lets every
/// observer go; closing lets every observer go for good; a value changes
/// nothing.
pub open spec fn call_effect(keys: Seq<u64>, live: bool, c: SubjectCall) -> (Seq<u64>, bool) {
    match c {
        SubjectCall::Subscribe(k) => if live {
            (keys.push(k), true)
        } else {
            (keys, false)
        },
        SubjectCall::Unsubscribe(k) => (remove_key(keys, k), live),
        SubjectCall::Next => (keys, live),
        SubjectCall::Complete | SubjectCall::Error => if live {
            (Seq::empty(), false)
        } else {
            (keys, false)
        },
        SubjectCall::Close => (Seq::empty(), false),
    }
}

/// The registered keys and liveness after a sequence of calls, in order.
pub open spec fn run_calls(keys: Seq<u64>, live: bool, calls: Seq<SubjectCall>) -> (Seq<u64>, bool)
    decreases calls.len(),
{
    if calls.len() == 0 {
        (keys, live)
    } else {
        let (k, l) = run_calls(keys, live, calls.drop_last());
        call_effect(k, l, calls.last())
    }
}

/// `new` is `old` after the call `c`, as far as the registered keys and
/// liveness go. Every operation on a subject's state ensures this of its
/// call.
pub open spec fn registry_step<T, E>(old: RegistryView<T, E>, new: RegistryView<T, E>, c: SubjectCall) -> bool {
    (keys_of(new.observers), new.live()) == call_effect(keys_of(old.observers), old.live(), c)
}

/// Law: over any history of calls, the observers registered with a subject
/// are, key for key and in order, those subscribed while it was live and
/// not unsubscribed since, counted from its last end or closing. In
/// particular the receiver's `len` is their number.
pub proof fn law_observers_follow_calls<T, E>(views: Seq<RegistryView<T, E>>, calls: Seq<SubjectCall>)
    requires
        views.len() == calls.len() + 1,
        forall|i: int| 0 <= i < calls.len() ==> registry_step(views[i], #[trigger] views[i + 1], calls[i]),
    ensures
        (keys_of(views.last().observers), views.last().live()) == run_calls(
            keys_of(views[0].observers),
            views[0].live(),
            calls,
        ),
        views.last().observers.len() == run_calls(keys_of(views[0].observers), views[0].live(), calls).0.len(),
    decreases calls.len(),
{
    if calls.len() > 0 {
        let n = calls.len() - 1;
        let vs = views.drop_last();
        assert forall|i: int| 0 <= i < calls.drop_last().len() implies registry_step(
            vs[i],
            #[trigger] vs[i + 1],
            calls.drop_last()[i],
        ) by {
            assert(registry_step(views[i], views[i + 1], calls[i]));
        }
        law_observers_follow_calls(vs, calls.drop_last());
        assert(registry_step(views[n], views[n + 1], calls[n]));
    }
}

/// Law: subscribing under a key that no registered observer has, then
/// unsubscribing that subscription, leaves the other observers exactly as
/// they were, and lets go exactly the observer that subscribed.
pub proof fn law_subscribe_then_unsubscribe<V>(obs: Seq<(u64, V)>, key: u64, w: V)
    requires
        forall|i: int| 0 <= i < obs.len() ==> (#[trigger] obs[i]).0 != key,
    ensures
        without_key(obs.push((key, w)), key) == obs,
        with_key(obs.push((key, w)), key) == seq![(key, w)],
{
    lemma_no_key(obs, key);
    assert(obs.push((key, w)).drop_last() =~= obs);
    assert(seq![(key, w)] =~= Seq::<(u64, V)>::empty().push((key, w)));
}

/// Dropping a key that is not there changes nothing.
proof fn lemma_remove_absent_key(keys: Seq<u64>, k: u64)
    requires
        !keys.contains(k),
    ensures
        remove_key(keys, k) == keys,
    decreases keys.len(),
{
    if keys.len() > 0 {
        let d = keys.drop_last();
        assert(!d.contains(k)) by {
            if d.contains(k) {
                let j = choose|j: int| 0 <= j < d.len() && d[j] == k;
                assert(keys[j] == k);
            }
        }
        lemma_remove_absent_key(d, k);
        assert(keys.last() != k) by {
            if keys.last() == k {
                assert(keys[keys.len() - 1] == k);
            }
        }
        assert(d.push(keys.last()) =~= keys);
    }
}

/// Law: on a live subject, subscribing under a fresh key and then
/// unsubscribing that key leaves the registered keys, and the subject's
/// liveness, as they were.
pub proof fn law_subscribe_unsubscribe_round_trip(keys: Seq<u64>, k: u64)
    requires
        !keys.contains(k),
    ensures
        run_calls(keys, true, seq![SubjectCall::Subscribe(k), SubjectCall::Unsubscribe(k)]) == (keys, true),
{
    let calls = seq![SubjectCall::Subscribe(k), SubjectCall::Unsubscribe(k)];
    assert(calls.drop_last() =~= seq![SubjectCall::Subscribe(k)]);
    assert(calls.drop_last().drop_last() =~= Seq::<SubjectCall>::empty());
    assert(keys.push(k).drop_last() =~= keys);
    lemma_remove_absent_key(keys, k);
    assert(remove_key(keys.push(k), k) == remove_key(keys, k));
    assert(run_calls(keys, true, calls.drop_last().drop_last()) == (keys, true));
    assert(calls.drop_last().last() == SubjectCall::Subscribe(k));
    assert(run_calls(keys, true, calls.drop_last()) == (keys.push(k), true));
    assert(calls.last() == SubjectCall::Unsubscribe(k));
}

/// Law: once a subject is closed (the receiver's `unsubscribe`), whatever
/// calls follow, no observer is registered and the subject stays ended:
/// later values and completions reach no one and nothing registers.
pub proof fn law_close_is_final(keys: Seq<u64>, live: bool, calls: Seq<SubjectCall>)
    ensures
        run_calls(keys, live, seq![SubjectCall::Close] + calls) == (Seq::<u64>::empty(), false),
    decreases calls.len(),
{
    let all = seq![SubjectCall::Close] + calls;
    if calls.len() == 0 {
        assert(all.drop_last() =~= Seq::<SubjectCall>::empty());
    } else {
        law_close_is_final(keys, live, calls.drop_last());
        assert(all.drop_last() =~= seq![SubjectCall::Close] + calls.drop_last());
        assert(all.last() == calls.last());
        assert(remove_key(Seq::<u64>::empty(), 0) == Seq::<u64>::empty());
        match calls.last() {
            SubjectCall::Unsubscribe(k) => {
                assert(remove_key(Seq::<u64>::empty(), k) =~= Seq::<u64>::empty());
            },
            _ => {},
        }
    }
}

proof fn lemma_no_key<V>(obs: Seq<(u64, V)>, key: u64)
    requires
        forall|i: int| 0 <= i < obs.len() ==> (#[trigger] obs[i]).0 != key,
    ensures
        without_key(obs, key) == obs,
        with_key(obs, key) == Seq::<(u64, V)>::empty(),
    decreases obs.len(),
{
    if obs.len() > 0 {
        let d = obs.drop_last();
        assert forall|i: int| 0 <= i < d.len() implies (#[trigger] d[i]).0 != key by {
            assert(d[i] == obs[i]);
        }
        lemma_no_key(d, key);
        assert(obs.last() == obs[obs.len() - 1]);
        assert(d.push(obs.last()) =~= obs);
    }
}

/// The keys after dropping those under `key` are the keys without `key`.
pub proof fn lemma_keys_without_key<V>(obs: Seq<(u64, V)>, key: u64)
    ensures
        keys_of(without_key(obs, key)) == remove_key(keys_of(obs), key),
    decreases obs.len(),
{
    if obs.len() > 0 {
        lemma_keys_without_key(obs.drop_last(), key);
        assert(keys_of(obs).drop_last() =~= keys_of(obs.drop_last()));
        assert(keys_of(obs).last() == obs.last().0);
        if obs.last().0 != key {
            assert(keys_of(without_key(obs.drop_last(), key).push(obs.last())) =~= keys_of(
                without_key(obs.drop_last(), key),
            ).push(obs.last().0));
        }
    }
}

/// Registering adds the key at the end.
pub proof fn lemma_keys_push<V>(obs: Seq<(u64, V)>, p: (u64, V))
    ensures
        keys_of(obs.push(p)) == keys_of(obs).push(p.0),
{
    assert(keys_of(obs.push(p)) =~= keys_of(obs).push(p.0));
}

/// A broadcast keeps the keys.
pub proof fn lemma_keys_same<T, E>(old: ObserverViews<T, E>, new: ObserverViews<T, E>)
    requires
        new.len() == old.len(),
        forall|i: int| 0 <= i < old.len() ==> (#[trigger] new[i]).0 == old[i].0,
    ensures
        keys_of(new) == keys_of(old),
{
    assert(keys_of(new) =~= keys_of(old));
}


/// Among the keys `0` to `n`, some key is missing from any `n` keys.
proof fn lemma_free_key_in_range(keys: Seq<u64>)
    requires
        keys.len() <= u64::MAX,
    ensures
        exists|x: int| 0 <= x <= keys.len() && !keys.contains(#[trigger] (x as u64)),
{
    if forall|x: int| 0 <= x <= keys.len() ==> keys.contains(#[trigger] (x as u64)) {
        let ints = keys.map_values(|k: u64| k as int);
        let range = vstd::set_lib::set_int_range(0, keys.len() as int + 1);
        assert forall|x: int| range.contains(x) implies ints.to_set().contains(x) by {
            assert(keys.contains(x as u64));
            let j = choose|j: int| 0 <= j < keys.len() && keys[j] == x as u64;
            assert(ints[j] == x);
            assert(ints.contains(x));
        }
        vstd::seq_lib::seq_to_set_is_finite(ints);
        vstd::set_lib::lemma_len_subset(range, ints.to_set());
        ints.lemma_cardinality_of_set();
        vstd::set_lib::lemma_int_range(0, keys.len() as int + 1);
    }
}

/// Adding a key that is not there keeps the keys distinct.
proof fn lemma_push_fresh_distinct(keys: Seq<u64>, k: u64)
    requires
        keys.no_duplicates(),
        !keys.contains(k),
    ensures
        keys.push(k).no_duplicates(),
{
    let t = keys.push(k);
    assert forall|i: int, j: int| 0 <= i < t.len() && 0 <= j < t.len() && i != j implies t[i] != t[j] by {
        if i == keys.len() {
            assert(keys.contains(t[j]) ==> t[j] != k);
            assert(t[j] == keys[j]);
        } else if j == keys.len() {
            assert(t[i] == keys[i]);
        }
    }
}

/// Dropping a key keeps the others, distinct when they were.
proof fn lemma_remove_key_distinct(keys: Seq<u64>, k: u64)
    ensures
        forall|x: u64| #[trigger] remove_key(keys, k).contains(x) ==> keys.contains(x) && x != k,
        keys.no_duplicates() ==> remove_key(keys, k).no_duplicates(),
    decreases keys.len(),
{
    if keys.len() > 0 {
        let d = keys.drop_last();
        let r = remove_key(d, k);
        lemma_remove_key_distinct(d, k);
        assert forall|x: u64| #[trigger] remove_key(keys, k).contains(x) implies keys.contains(x) && x != k by {
            let t = remove_key(keys, k);
            let j = choose|j: int| 0 <= j < t.len() && t[j] == x;
            if j < r.len() {
                assert(r[j] == x);
                assert(r.contains(x));
                let i = choose|i: int| 0 <= i < d.len() && d[i] == x;
                assert(keys[i] == x);
            } else {
                assert(keys.last() != k);
                assert(keys[keys.len() - 1] == x);
            }
        }
        if keys.no_duplicates() {
            assert(d.no_duplicates());
            if keys.last() != k {
                assert(!d.contains(keys.last())) by {
                    if d.contains(keys.last()) {
                        let j = choose|j: int| 0 <= j < d.len() && d[j] == keys.last();
                        assert(keys[j] == keys[keys.len() - 1]);
                    }
                }
                assert(!r.contains(keys.last()));
                lemma_push_fresh_distinct(r, keys.last());
            }
        }
    }
}

/// Law: with distinct keys, unsubscribing the subscription made under the
/// key of one observer drops exactly that observer and keeps every other
/// one, in order.
pub proof fn law_unsubscribe_drops_only_its_observer<V>(obs: Seq<(u64, V)>, j: int)
    requires
        keys_of(obs).no_duplicates(),
        0 <= j < obs.len(),
    ensures
        without_key(obs, obs[j].0) == obs.remove(j),
        with_key(obs, obs[j].0) == seq![obs[j]],
    decreases obs.len(),
{
    let k = obs[j].0;
    let d = obs.drop_last();
    let last = obs.len() - 1;
    assert(keys_of(d) =~= keys_of(obs).drop_last());
    if j == last {
        assert forall|i: int| 0 <= i < d.len() implies (#[trigger] d[i]).0 != k by {
            assert(keys_of(obs)[i] == d[i].0);
            assert(keys_of(obs)[last] == k);
        }
        lemma_no_key(d, k);
        assert(obs.remove(j) =~= d);
        assert(seq![obs[j]] =~= Seq::<(u64, V)>::empty().push(obs.last()));
    } else {
        assert(keys_of(obs)[j] == k && keys_of(obs)[last] == obs.last().0);
        assert(obs.last().0 != k);
        assert(d[j] == obs[j]);
        law_unsubscribe_drops_only_its_observer(d, j);
        assert(obs.remove(j) =~= d.remove(j).push(obs.last()));
    }
}

} // verus!
