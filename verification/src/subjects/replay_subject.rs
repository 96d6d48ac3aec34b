//! `ReplaySubject`: a subject that keeps a buffer of past values (all of
//! them, or the last `n`, optionally only those younger than a time window)
//! and replays it to each new subscriber, even after the stream has ended.
use std::collections::VecDeque;
use std::sync::Arc;
use vstd::prelude::*;
use vstd::rwlock::RwLock;

use super::registry::{
    all_got_complete, all_got_error, all_got_next, late_outcome, second, with_key, without_key,
    Registry, RegistryView,
    keys_of, registry_step, SubjectCall,
};
use super::{gen_key, Multicast, SharedState, SubjectSubscription, WellFormed};
pub use super::replay_entry::{fresh_marks, fresh_within, EmittedValueEntry};
use crate::observer::Observer;
use crate::subscription::subscribe::{Fuse, Unsubscribeable};
use crate::subscription::subscribe::{Notification, Subscriber, SubscriberView};

verus! {

/// How many past values a `ReplaySubject` keeps for replay.
pub enum BufSize {
    /// Every value.
    Infinite,
    /// At most this many: the most recent ones.
    Limited(usize),
}

/// The buffer after a new value: the last `n` values when limited.
pub open spec fn bounded<T>(s: Seq<T>, b: BufSize) -> Seq<T> {
    match b {
        BufSize::Infinite => s,
        BufSize::Limited(n) => if s.len() > n {
            s.skip(s.len() - n)
        } else {
            s
        },
    }
}

/// The buffer respects its limit.
pub open spec fn within_bound(len: nat, b: BufSize) -> bool {
    match b {
        BufSize::Infinite => true,
        BufSize::Limited(n) => len <= n,
    }
}

/// The elements of `s` whose flag in `keep` is set, in order.
pub open spec fn select<T>(s: Seq<T>, keep: Seq<bool>) -> Seq<T>
    decreases s.len(),
{
    if s.len() == 0 {
        s
    } else if keep[s.len() - 1] {
        select(s.drop_last(), keep.drop_last()).push(s.last())
    } else {
        select(s.drop_last(), keep.drop_last())
    }
}

/// The notification at `k` is a value that is a clone of `x`.
pub open spec fn next_clone_at<T: Clone, E>(log: Seq<Notification<T, E>>, k: int, x: T) -> bool {
    log[k] matches Notification::Next(c) && cloned(x, c)
}

/// `w` is `v` after being offered, in order, a clone of each of `xs`.
pub open spec fn got_clones<T: Clone, E>(
    v: SubscriberView<T, E>,
    w: SubscriberView<T, E>,
    xs: Seq<T>,
) -> bool {
    if v.next_open() {
        &&& w == (SubscriberView { log: w.log, ..v })
        &&& w.log.len() == v.log.len() + xs.len()
        &&& w.log.take(v.log.len() as int) == v.log
        &&& forall|j: int| 0 <= j < xs.len() ==> #[trigger] next_clone_at(w.log, v.log.len() + j, xs[j])
    } else {
        w == v
    }
}

pub open spec fn entry_values<T>(s: Seq<EmittedValueEntry<T>>) -> Seq<T> {
    s.map_values(|e: EmittedValueEntry<T>| e.value())
}

/// The state of a `ReplaySubject`: its buffer settings, the values kept for
/// replay, its observers and how it ended, if it has.
#[verifier::reject_recursive_types(T)]
#[verifier::reject_recursive_types(E)]
pub struct ReplaySubject<T, E> {
    buf_size: BufSize,
    window_size: Option<u128>,
    values: VecDeque<EmittedValueEntry<T>>,
    reg: Registry<T, E>,
}

/// A `ReplaySubject` as the rules see it.
pub ghost struct ReplayView<T, E> {
    pub buf_size: BufSize,
    pub window_size: Option<u128>,
    pub values: Seq<T>,
    pub reg: RegistryView<T, E>,
}

/// The buffer after a subscription, given a reading of each buffered
/// value's age: a closed subject or one without a time window keeps it as it
/// is; otherwise exactly the values read within the window stay, in order.
pub open spec fn kept_on_subscribe<T, E>(s: ReplayView<T, E>, readings: Seq<u128>) -> Seq<T> {
    match s.window_size {
        Some(w) => if s.reg.closed {
            s.values
        } else {
            select(s.values, fresh_marks(readings, w))
        },
        None => s.values,
    }
}

impl<T, E> ReplayView<T, E> {
    pub open spec fn wf(self) -> bool {
        self.reg.wf() && within_bound(self.values.len(), self.buf_size)
    }
}

/// Law: an emission adds exactly one entry, the new one, at the end of the
/// buffer; every other entry left in the buffer is one that was there
/// before, unchanged (value and stamp), in the same order: the newest ones,
/// dropping only the oldest. A buffer limited to no value keeps nothing.
pub proof fn law_emission_appends_one_entry<X>(old: Seq<X>, e: X, b: BufSize)
    requires
        within_bound(old.len(), b),
    ensures
        ({
            let r = bounded(old.push(e), b);
            &&& b == BufSize::Limited(0) ==> r.len() == 0
            &&& b != BufSize::Limited(0) ==> {
                &&& r.len() > 0
                &&& r.last() == e
                &&& r.drop_last() == old.skip(old.len() - (r.len() - 1))
            }
        }),
{
    let r = bounded(old.push(e), b);
    match b {
        BufSize::Infinite => {
            assert(old.push(e).drop_last() =~= old.skip(0));
        },
        BufSize::Limited(n) => {
            if n > 0 {
                if old.len() + 1 > n {
                    assert(r.drop_last() =~= old.skip(old.len() - (r.len() - 1)));
                } else {
                    assert(old.push(e).drop_last() =~= old.skip(0));
                }
            }
        },
    }
}

impl<T, E> ReplaySubject<T, E> {
    /// The buffered entries, oldest first, each with its emission stamp.
    pub closed spec fn entries(&self) -> Seq<EmittedValueEntry<T>> {
        self.values@
    }
}

impl<T, E> View for ReplaySubject<T, E> {
    type V = ReplayView<T, E>;

    closed spec fn view(&self) -> ReplayView<T, E> {
        ReplayView {
            buf_size: self.buf_size,
            window_size: self.window_size,
            values: entry_values(self.values@),
            reg: self.reg@,
        }
    }
}

/// Keeping only some elements never makes a sequence longer.
proof fn lemma_select_len<T>(s: Seq<T>, keep: Seq<bool>)
    requires
        keep.len() == s.len(),
    ensures
        select(s, keep).len() <= s.len(),
    decreases s.len(),
{
    if s.len() > 0 {
        lemma_select_len(s.drop_last(), keep.drop_last());
    }
}

/// Law: adding a value to a buffer that holds the last `n` values of a
/// sequence gives the last `n` values of the sequence extended by that value.
/// So a limited `ReplaySubject` always replays exactly the last `n` values
/// emitted (all of them when unlimited).
pub proof fn law_replay_keeps_last<T>(s: Seq<T>, c: T, b: BufSize)
    ensures
        bounded(bounded(s, b).push(c), b) == bounded(s.push(c), b),
{
    match b {
        BufSize::Infinite => {},
        BufSize::Limited(n) => {
            let t = bounded(s, b);
            if s.len() > n {
                assert(t.len() == n);
                assert(bounded(t.push(c), b) =~= bounded(s.push(c), b));
            } else {
                assert(t == s);
            }
        },
    }
}

impl<T, E> ReplaySubject<T, E> {
    /// A replay subject with the given buffer settings, an empty buffer and no
    /// observers, not ended.
    pub fn new(buf_size: BufSize, window_size: Option<u128>) -> (s: Self)
        ensures
            s@.buf_size == buf_size,
            s@.window_size == window_size,
            s@.values.len() == 0,
            s@.reg.observers.len() == 0,
            s@.reg.live(),
            s@.reg.error is None,
            s@.reg.released.len() == 0,
            s@.wf(),
    {
        let s = ReplaySubject { buf_size, window_size, values: VecDeque::new(), reg: Registry::new() };
        proof {
            assert(entry_values(s.values@) =~= Seq::<T>::empty());
        }
        s
    }

    /// Reads the age of every buffered value, in buffer order, when the
    /// buffer has a time window (nothing otherwise). The ages depend on the
    /// time of the call; only their number is stated.
    pub fn elapsed_readings(&self) -> (r: Vec<u128>)
        ensures
            self@.window_size is Some ==> r@.len() == self@.values.len(),
    {
        let mut r: Vec<u128> = Vec::new();
        if self.window_size.is_none() {
            return r;
        }
        let n = self.values.len();
        let mut i: usize = 0;
        while i < n
            invariant
                0 <= i <= n,
                n == self.values@.len(),
                r@.len() == i,
            decreases n - i,
        {
            r.push(self.values[i].elapsed_ms());
            i = i + 1;
        }
        r
    }

    /// Keeps exactly the buffered values whose age reading (`readings`, in
    /// buffer order) is within `window_size_ms`, in order.
    fn prune(&mut self, readings: &Vec<u128>, window_size_ms: u128)
        requires
            old(self)@.wf(),
            readings@.len() == old(self)@.values.len(),
        ensures
            final(self)@.wf(),
            final(self)@ == (ReplayView { values: final(self)@.values, ..old(self)@ }),
            final(self)@.values == select(old(self)@.values, fresh_marks(readings@, window_size_ms)),
    {
        let mut rest: VecDeque<EmittedValueEntry<T>> = VecDeque::new();
        std::mem::swap(&mut rest, &mut self.values);
        let ghost all = rest@;
        let ghost marks = fresh_marks(readings@, window_size_ms);
        let n = rest.len();
        let mut i: usize = 0;
        proof {
            assert(entry_values(self.values@) =~= select(entry_values(all.take(0)), marks.take(0)));
        }
        while i < n
            invariant
                0 <= i <= n,
                n == all.len(),
                readings@.len() == n,
                marks == fresh_marks(readings@, window_size_ms),
                rest@ == all.skip(i as int),
                entry_values(self.values@) == select(entry_values(all.take(i as int)), marks.take(i as int)),
                self.buf_size == old(self).buf_size,
                self.window_size == old(self).window_size,
                self.reg == old(self).reg,
            decreases n - i,
        {
            let ghost before = self.values@;
            let popped = rest.pop_front();
            match popped {
                Some(e) => {
                    let ghost ev = entry_values(all.take(i + 1));
                    let ghost mk = marks.take(i + 1);
                    proof {
                        assert(e == all[i as int]);
                        assert(rest@ =~= all.skip(i + 1));
                        assert(ev.drop_last() =~= entry_values(all.take(i as int)));
                        assert(ev.last() == e.value());
                        assert(mk.drop_last() =~= marks.take(i as int));
                        assert(mk.last() == (readings@[i as int] <= window_size_ms));
                    }
                    if fresh_within(readings[i], window_size_ms) {
                        self.values.push_back(e);
                        proof {
                            assert(entry_values(self.values@) =~= entry_values(before).push(e.value()));
                            assert(select(ev, mk) == select(ev.drop_last(), mk.drop_last()).push(ev.last()));
                        }
                    } else {
                        proof {
                            assert(select(ev, mk) == select(ev.drop_last(), mk.drop_last()));
                        }
                    }
                },
                None => {
                    proof {
                        assert(false);
                    }
                },
            }
            i = i + 1;
        }
        proof {
            assert(all.take(n as int) =~= all);
            assert(marks.take(n as int) =~= marks);
            lemma_select_len(entry_values(all), marks);
        }
    }

    /// Offers `v` a clone of every buffered value, in order.
    fn replay_to(&self, v: &mut Subscriber<T, E>)
        where
            T: Clone,
        requires
            old(v)@.ready,
        ensures
            final(v)@.ready,
            got_clones(old(v)@, final(v)@, self@.values),
    {
        let n = self.values.len();
        let ghost xs = self@.values;
        let mut i: usize = 0;
        proof {
            assert(old(v)@.log.take(old(v)@.log.len() as int) =~= old(v)@.log);
            assert(v@ == (SubscriberView { log: v@.log, ..old(v)@ }));
        }
        while i < n
            invariant
                0 <= i <= n,
                n == self.values@.len(),
                xs == entry_values(self.values@),
                v@.ready,
                got_clones(old(v)@, v@, xs.take(i as int)),
            decreases n - i,
        {
            let c = self.values[i].value_ref().clone();
            let ghost before = v@;
            v.deliver_next(c);
            proof {
                assert(xs[i as int] == self.values@[i as int].value());
                let base = old(v)@.log.len();
                if old(v)@.next_open() {
                    assert(before.next_open());
                    assert(v@.log == before.log.push(Notification::Next(c)));
                    assert(v@.log.take(base as int) =~= old(v)@.log) by {
                        assert(before.log.take(base as int) =~= old(v)@.log);
                    }
                    assert forall|j: int| 0 <= j < i + 1 implies #[trigger] next_clone_at(v@.log, base + j, xs.take(i + 1)[j]) by {
                        if j < i {
                            assert(xs.take(i + 1)[j] == xs.take(i as int)[j]);
                            assert(v@.log[base + j] == before.log[base + j]);
                            assert(next_clone_at(before.log, base + j, xs.take(i as int)[j]));
                        } else {
                            assert(v@.log[base + j] == Notification::<T, E>::Next(c));
                        }
                    }
                    assert(v@ == (SubscriberView { log: v@.log, ..old(v)@ }));
                } else {
                    assert(v@ == before);
                }
                assert(got_clones(old(v)@, v@, xs.take(i + 1)));
            }
            i = i + 1;
        }
        proof {
            assert(xs.take(n as int) =~= xs);
        }
    }

    /// A key under which no observer is registered: `candidate` itself when
    /// it is free.
    pub fn fresh_key(&self, candidate: u64) -> (k: u64)
        ensures
            !keys_of(self@.reg.observers).contains(k),
            !keys_of(self@.reg.observers).contains(candidate) ==> k == candidate,
    {
        self.reg.fresh_key(candidate)
    }

    /// Subscribes `v` under `key`. A closed subject lets `v` go unnotified.
    /// Otherwise, when the buffer has a time window, only the values whose
    /// age reading (`readings`, in buffer order, see `elapsed_readings`) is
    /// within the window stay in it; `v` then gets a clone of every buffered value, in
    /// order; a subject that has ended then tells `v` how (error or
    /// completion) and lets it go, and a live one registers it. Returns
    /// whether it was registered.
    pub fn subscribe_keyed(&mut self, key: u64, v: Subscriber<T, E>, readings: &Vec<u128>) -> (registered: bool)
        where
            T: Clone,
            E: Clone,
        requires
            old(self)@.wf(),
            v@.ready,
            old(self)@.window_size is Some ==> readings@.len() == old(self)@.values.len(),
        ensures
            final(self)@.wf(),
            final(self)@.buf_size == old(self)@.buf_size,
            final(self)@.window_size == old(self)@.window_size,
            registered == old(self)@.reg.live(),
            final(self)@.values == kept_on_subscribe(old(self)@, readings@),
            old(self)@.reg.closed ==> final(self)@.reg == (RegistryView {
                released: old(self)@.reg.released.push(v@),
                ..old(self)@.reg
            }),
            !old(self)@.reg.closed && old(self)@.reg.completed ==> {
                &&& final(self)@.reg == (RegistryView {
                    released: final(self)@.reg.released,
                    ..old(self)@.reg
                })
                &&& final(self)@.reg.released.drop_last() == old(self)@.reg.released
                &&& final(self)@.reg.released.len() == old(self)@.reg.released.len() + 1
                &&& exists|w: SubscriberView<T, E>|
                    got_clones(v@, w, final(self)@.values) && late_outcome(
                        w,
                        final(self)@.reg.released.last(),
                        old(self)@.reg.error,
                    )
            },
            old(self)@.reg.live() ==> {
                &&& final(self)@.reg == (RegistryView {
                    observers: final(self)@.reg.observers,
                    ..old(self)@.reg
                })
                &&& final(self)@.reg.observers.drop_last() == old(self)@.reg.observers
                &&& final(self)@.reg.observers.len() == old(self)@.reg.observers.len() + 1
                &&& final(self)@.reg.observers.last().0 == key
                &&& got_clones(v@, final(self)@.reg.observers.last().1, final(self)@.values)
            },
            registry_step(old(self)@.reg, final(self)@.reg, SubjectCall::Subscribe(key)),
            old(self)@.reg.keys_distinct() && !keys_of(old(self)@.reg.observers).contains(key) ==> final(self)@.reg.keys_distinct(),
    {
        if self.reg.is_closed() {
            self.reg.release(v);
            proof {
                let keep = Seq::new(self@.values.len(), |i: int| true);
                lemma_select_all(self@.values, keep);
            }
            return false;
        }
        match self.window_size {
            Some(w) => {
                self.prune(readings, w);
            },
            None => {
                proof {
                    let keep = Seq::new(self@.values.len(), |i: int| true);
                    lemma_select_all(self@.values, keep);
                }
            },
        }
        let mut v = v;
        let ghost v0 = v@;
        self.replay_to(&mut v);
        if self.reg.is_completed() {
            let ghost w = v@;
            self.reg.notify_late(v);
            proof {
                assert(got_clones(v0, w, self@.values));
            }
            return false;
        }
        let ghost before = self.reg@;
        self.reg.register(key, v);
        proof {
            assert(self.reg@.observers.drop_last() =~= before.observers);
        }
        true
    }

    /// Buffers a clone of `v` (dropping the oldest value when a limited buffer
    /// is full) and multicasts clones of `v` to every observer, unless the
    /// subject has ended or is closed.
    pub fn emit_next(&mut self, v: T)
        where
            T: Clone,
        requires
            old(self)@.wf(),
        ensures
            final(self)@.wf(),
            !old(self)@.reg.live() ==> final(self)@ == old(self)@ && final(self).entries() == old(
                self,
            ).entries(),
            old(self)@.reg.live() ==> {
                &&& exists|c: T|
                    cloned(v, c) && final(self)@.values == bounded(
                        old(self)@.values.push(c),
                        old(self)@.buf_size,
                    )
                &&& exists|e: EmittedValueEntry<T>|
                    cloned(v, e.value()) && final(self).entries() == bounded(
                        old(self).entries().push(e),
                        old(self)@.buf_size,
                    )
                &&& all_got_next(old(self)@.reg.observers, final(self)@.reg.observers, v)
                &&& final(self)@ == (ReplayView {
                    values: final(self)@.values,
                    reg: final(self)@.reg,
                    ..old(self)@
                })
                &&& final(self)@.reg == (RegistryView {
                    observers: final(self)@.reg.observers,
                    ..old(self)@.reg
                })
            },
            registry_step(old(self)@.reg, final(self)@.reg, SubjectCall::Next),
            old(self)@.reg.keys_distinct() ==> final(self)@.reg.keys_distinct(),
    {
        if self.reg.is_closed() || self.reg.is_completed() {
            return;
        }
        let c = v.clone();
        let ghost old_vals = self@.values;
        let ghost old_entries = self.values@;
        let e = EmittedValueEntry::new(c);
        let ghost ge = e;
        match self.buf_size {
            BufSize::Infinite => {
                self.values.push_back(e);
                proof {
                    assert(entry_values(self.values@) =~= old_vals.push(c));
                }
            },
            BufSize::Limited(buf_size) => {
                if self.values.len() == buf_size {
                    self.values.pop_front();
                }
                let ghost mid = self.values@;
                if buf_size > 0 {
                    self.values.push_back(e);
                    proof {
                        assert(entry_values(self.values@) =~= entry_values(mid).push(c));
                        if old_vals.len() == buf_size {
                            assert(entry_values(mid) =~= old_vals.skip(1));
                            assert(mid =~= old_entries.skip(1));
                            assert(self.values@ =~= bounded(old_entries.push(ge), self.buf_size));
                            assert(entry_values(self.values@) =~= bounded(old_vals.push(c), self.buf_size));
                        } else {
                            assert(self.values@ =~= bounded(old_entries.push(ge), self.buf_size));
                            assert(entry_values(self.values@) =~= bounded(old_vals.push(c), self.buf_size));
                        }
                    }
                } else {
                    proof {
                        assert(self.values@ =~= bounded(old_entries.push(ge), self.buf_size));
                        assert(entry_values(self.values@) =~= bounded(old_vals.push(c), self.buf_size));
                    }
                }
            },
        }
        proof {
            assert(cloned(v, c));
            assert(cloned(v, ge.value()));
            assert(entry_values(self.values@) == bounded(old_vals.push(c), self.buf_size));
            assert(self.values@ == bounded(old_entries.push(ge), self.buf_size));
        }
        self.reg.next(&v);
    }

    /// Ends the stream with an error: every observer gets a clone of it and is
    /// let go; the buffer stays for later subscribers. Nothing happens once the
    /// subject has ended or is closed.
    pub fn emit_error(&mut self, e: E)
        where
            E: Clone,
        requires
            old(self)@.wf(),
        ensures
            final(self)@.wf(),
            final(self)@ == (ReplayView { reg: final(self)@.reg, ..old(self)@ }),
            !old(self)@.reg.live() ==> final(self)@ == old(self)@,
            old(self)@.reg.live() ==> {
                &&& final(self)@.reg.observers.len() == 0
                &&& final(self)@.reg.completed
                &&& !final(self)@.reg.closed
                &&& final(self)@.reg.error == Some(e)
                &&& final(self)@.reg.released.take(old(self)@.reg.released.len() as int)
                    == old(self)@.reg.released
                &&& all_got_error(
                    old(self)@.reg.observers,
                    final(self)@.reg.released.skip(old(self)@.reg.released.len() as int),
                    e,
                )
            },
            registry_step(old(self)@.reg, final(self)@.reg, SubjectCall::Error),
            old(self)@.reg.keys_distinct() ==> final(self)@.reg.keys_distinct(),
    {
        self.reg.fail(e);
    }

    /// Completes the stream: every observer gets the completion and is let go;
    /// the buffer stays for later subscribers. Nothing happens once the subject
    /// has ended or is closed.
    pub fn emit_complete(&mut self)
        requires
            old(self)@.wf(),
        ensures
            final(self)@.wf(),
            final(self)@ == (ReplayView { reg: final(self)@.reg, ..old(self)@ }),
            !old(self)@.reg.live() ==> final(self)@ == old(self)@,
            old(self)@.reg.live() ==> {
                &&& final(self)@.reg.observers.len() == 0
                &&& final(self)@.reg.completed
                &&& !final(self)@.reg.closed
                &&& final(self)@.reg.error is None
                &&& final(self)@.reg.released.take(old(self)@.reg.released.len() as int)
                    == old(self)@.reg.released
                &&& all_got_complete(
                    old(self)@.reg.observers,
                    final(self)@.reg.released.skip(old(self)@.reg.released.len() as int),
                )
            },
            registry_step(old(self)@.reg, final(self)@.reg, SubjectCall::Complete),
            old(self)@.reg.keys_distinct() ==> final(self)@.reg.keys_distinct(),
    {
        self.reg.finish();
    }

    /// Closes the subject: it stops multicasting and registering, and lets its
    /// observers go unnotified.
    pub fn close(&mut self)
        requires
            old(self)@.wf(),
        ensures
            final(self)@.wf(),
            final(self)@ == (ReplayView { reg: final(self)@.reg, ..old(self)@ }),
            final(self)@.reg == (RegistryView {
                observers: Seq::empty(),
                closed: true,
                released: old(self)@.reg.released + second(old(self)@.reg.observers),
                ..old(self)@.reg
            }),
            registry_step(old(self)@.reg, final(self)@.reg, SubjectCall::Close),
            old(self)@.reg.keys_distinct() ==> final(self)@.reg.keys_distinct(),
    {
        self.reg.close();
    }

    /// Number of registered observers.
    pub fn observer_count(&self) -> (r: usize)
        ensures
            r == self@.reg.observers.len(),
    {
        self.reg.count()
    }
}

/// Keeping every element keeps the sequence.
proof fn lemma_select_all<T>(s: Seq<T>, keep: Seq<bool>)
    requires
        keep.len() == s.len(),
        forall|i: int| 0 <= i < keep.len() ==> keep[i],
    ensures
        select(s, keep) == s,
    decreases s.len(),
{
    if s.len() > 0 {
        lemma_select_all(s.drop_last(), keep.drop_last());
        assert(s.drop_last().push(s.last()) =~= s);
    }
}

impl<T, E> Multicast for ReplaySubject<T, E> {
    type Settings = (BufSize, Option<u128>);

    open spec fn keys_distinct(&self) -> bool {
        self@.reg.keys_distinct()
    }

    open spec fn settings(&self) -> (BufSize, Option<u128>) {
        (self@.buf_size, self@.window_size)
    }

    open spec fn wf(&self) -> bool {
        self@.wf()
    }

    fn remove_observer(&mut self, key: u64)
        ensures
            final(self)@ == (ReplayView { reg: final(self)@.reg, ..old(self)@ }),
            final(self)@.reg == (RegistryView {
                observers: without_key(old(self)@.reg.observers, key),
                released: old(self)@.reg.released + second(with_key(old(self)@.reg.observers, key)),
                ..old(self)@.reg
            }),
            registry_step(old(self)@.reg, final(self)@.reg, SubjectCall::Unsubscribe(key)),
            old(self)@.reg.keys_distinct() ==> final(self)@.reg.keys_distinct(),
    {
        self.reg.remove(key);
    }
}

impl<T, E> ReplaySubject<T, E> {
    /// Creates a replay subject that keeps `buf_size` past values and returns
    /// its emitter and its receiver, which share its state.
    pub fn emitter_receiver(buf_size: BufSize) -> (r: (ReplaySubjectEmitter<T, E>, ReplaySubjectReceiver<T, E>))
        ensures
            r.0.shared() == r.1.shared(),
            r.1.shared().pred().settings == (buf_size, None::<u128>),
    {
        let state = ReplaySubject::new(buf_size, None);
        let lock = Arc::new(RwLock::new(state, Ghost(WellFormed { settings: (buf_size, None) })));
        (ReplaySubjectEmitter { inner: lock.clone() }, ReplaySubjectReceiver { inner: lock })
    }

    /// Creates a replay subject that keeps `buf_size` past values, each for
    /// `window_size_ms` milliseconds, and returns its emitter and its
    /// receiver, which share its state.
    pub fn emitter_receiver_time_aware(buf_size: BufSize, window_size_ms: u128) -> (r: (
        ReplaySubjectEmitter<T, E>,
        ReplaySubjectReceiver<T, E>,
    ))
        ensures
            r.0.shared() == r.1.shared(),
            r.1.shared().pred().settings == (buf_size, Some(window_size_ms)),
    {
        let state = ReplaySubject::new(buf_size, Some(window_size_ms));
        let lock = Arc::new(
            RwLock::new(state, Ghost(WellFormed { settings: (buf_size, Some(window_size_ms)) })),
        );
        (ReplaySubjectEmitter { inner: lock.clone() }, ReplaySubjectReceiver { inner: lock })
    }
}

/// The receiving side of a `ReplaySubject`: observers subscribe to it.
#[derive(Clone)]
#[verifier::reject_recursive_types(T)]
#[verifier::reject_recursive_types(E)]
pub struct ReplaySubjectReceiver<T, E> {
    inner: Arc<SharedState<ReplaySubject<T, E>>>,
}

/// The emitting side of a `ReplaySubject`.
#[derive(Clone)]
#[verifier::reject_recursive_types(T)]
#[verifier::reject_recursive_types(E)]
pub struct ReplaySubjectEmitter<T, E> {
    inner: Arc<SharedState<ReplaySubject<T, E>>>,
}

impl<T, E> ReplaySubjectReceiver<T, E> {
    /// The lock holding the state this receiver shares.
    pub closed spec fn shared(&self) -> SharedState<ReplaySubject<T, E>> {
        *self.inner
    }
}

impl<T, E> ReplaySubjectEmitter<T, E> {
    /// The lock holding the state this emitter shares.
    pub closed spec fn shared(&self) -> SharedState<ReplaySubject<T, E>> {
        *self.inner
    }
}

impl<T, E> ReplaySubjectReceiver<T, E> {
    /// Number of registered observers at the time of the call.
    pub fn len(&self) -> usize {
        let handle = self.inner.acquire_read();
        let n = handle.borrow().observer_count();
        handle.release_read();
        n
    }

    /// Subscribes `v` under a fresh random key (see
    /// `ReplaySubject::subscribe_keyed` for what happens to it).
    pub fn subscribe(&mut self, v: Subscriber<T, E>) -> (s: SubjectSubscription<ReplaySubject<T, E>>)
        where
            T: Clone,
            E: Clone,
        requires
            v@.ready,
        ensures
            final(self).shared() == old(self).shared(),
            s.holds_registration() ==> s.registered_with() == old(self).shared(),
    {
        let (mut state, handle) = self.inner.acquire_write();
        let key = state.fresh_key(gen_key());
        let readings = state.elapsed_readings();
        let registered = state.subscribe_keyed(key, v, &readings);
        handle.release_write(state);
        if registered {
            SubjectSubscription { source: Some(self.inner.clone()), key }
        } else {
            SubjectSubscription { source: None, key }
        }
    }
}

impl<T, E> Fuse for ReplaySubjectReceiver<T, E> {

}

impl<T, E> Unsubscribeable for ReplaySubjectReceiver<T, E> {
    /// Closes the subject and drops its observers.
    fn unsubscribe(self) {
        let (mut state, handle) = self.inner.acquire_write();
        state.close();
        handle.release_write(state);
    }
}

impl<T: Clone, E: Clone> Observer for ReplaySubjectEmitter<T, E> {
    type NextFnType = T;

    type ErrorType = E;

    open spec fn observer_ready(&self) -> bool {
        true
    }

    fn next(&mut self, v: T) {
        let (mut state, handle) = self.inner.acquire_write();
        state.emit_next(v);
        handle.release_write(state);
    }

    fn error(&mut self, e: E) {
        let (mut state, handle) = self.inner.acquire_write();
        state.emit_error(e);
        handle.release_write(state);
    }

    fn complete(&mut self) {
        let (mut state, handle) = self.inner.acquire_write();
        state.emit_complete();
        handle.release_write(state);
    }
}

} // verus!
