//! The decisions of the filtering operators: which source values pass, and
//! when the source is told to stop (`skip`, `take`, `take_while`,
//! `take_until`, `first`, `exhaust_map`).
use vstd::prelude::*;

verus! {

/// What a `take`-like operator does with a source value.
#[derive(Clone, Copy, Debug, PartialEq, Eq, Structural)]
pub enum TakeAction {
    /// Pass the value on.
    Forward,
    /// Drop the value and tell the source to stop emitting (done once).
    Unsubscribe,
    /// Drop the value.
    Ignore,
}

// ---------------------------------------------------------------- skip

/// `skip(n)`: drops the first `n` values, passes the rest.
pub struct SkipCounter {
    remaining: usize,
}

/// The skip counter after one value.
pub open spec fn skip_step(remaining: nat) -> nat {
    if remaining == 0 {
        0
    } else {
        (remaining - 1) as nat
    }
}

/// The skip counter after `i` values, starting from `n`.
pub open spec fn skip_after(n: nat, i: nat) -> nat
    decreases i,
{
    if i == 0 {
        n
    } else {
        skip_step(skip_after(n, (i - 1) as nat))
    }
}

impl SkipCounter {
    pub closed spec fn remaining(&self) -> nat {
        self.remaining as nat
    }

    /// A counter that skips `n` values.
    pub fn new(n: usize) -> (s: Self)
        ensures
            s.remaining() == n,
    {
        SkipCounter { remaining: n }
    }

    /// Decides on the next source value: `true` to pass it on.
    pub fn on_next(&mut self) -> (forward: bool)
        ensures
            forward == (old(self).remaining() == 0),
            final(self).remaining() == skip_step(old(self).remaining()),
    {
        if self.remaining > 0 {
            self.remaining = self.remaining - 1;
            return false;
        }
        true
    }
}

/// Law: `skip(n)` drops exactly the first `n` values: the value at position
/// `i` (from 0) is passed on if and only if `i >= n`.
pub proof fn law_skip_passes_from_n(n: nat, i: nat)
    ensures
        skip_after(n, i) == if i >= n {
            0
        } else {
            (n - i) as nat
        },
        (skip_after(n, i) == 0) == (i >= n),
    decreases i,
{
    if i > 0 {
        law_skip_passes_from_n(n, (i - 1) as nat);
    }
}

// ---------------------------------------------------------------- take

/// `take(n)`: passes the first `n` values, then tells the source to stop.
pub struct TakeCounter {
    taken: usize,
    limit: usize,
    signal_sent: bool,
}

pub ghost struct TakeView {
    pub taken: nat,
    pub limit: nat,
    pub signal_sent: bool,
}

/// One `take` decision: the new state and the action.
pub open spec fn take_step(s: TakeView) -> (TakeView, TakeAction) {
    if s.taken < s.limit {
        (TakeView { taken: s.taken + 1, ..s }, TakeAction::Forward)
    } else if !s.signal_sent {
        (TakeView { signal_sent: true, ..s }, TakeAction::Unsubscribe)
    } else {
        (s, TakeAction::Ignore)
    }
}

/// The state after `k` decisions.
pub open spec fn take_after(s: TakeView, k: nat) -> TakeView
    decreases k,
{
    if k == 0 {
        s
    } else {
        take_step(take_after(s, (k - 1) as nat)).0
    }
}

/// How many of the first `k` decisions pass the value on.
pub open spec fn take_forwards(s: TakeView, k: nat) -> nat
    decreases k,
{
    if k == 0 {
        0
    } else {
        take_forwards(s, (k - 1) as nat) + if take_step(take_after(s, (k - 1) as nat)).1
            == TakeAction::Forward {
            1nat
        } else {
            0nat
        }
    }
}

/// How many of the first `k` decisions tell the source to stop.
pub open spec fn take_unsubscribes(s: TakeView, k: nat) -> nat
    decreases k,
{
    if k == 0 {
        0
    } else {
        take_unsubscribes(s, (k - 1) as nat) + if take_step(take_after(s, (k - 1) as nat)).1
            == TakeAction::Unsubscribe {
            1nat
        } else {
            0nat
        }
    }
}

impl TakeCounter {
    pub closed spec fn view(&self) -> TakeView {
        TakeView {
            taken: self.taken as nat,
            limit: self.limit as nat,
            signal_sent: self.signal_sent,
        }
    }

    /// A counter that passes `limit` values. On a subject the source is never
    /// told to stop (`skip_unsubscribe`).
    pub fn new(limit: usize, skip_unsubscribe: bool) -> (s: Self)
        ensures
            s.view() == (TakeView { taken: 0, limit: limit as nat, signal_sent: skip_unsubscribe }),
    {
        TakeCounter { taken: 0, limit, signal_sent: skip_unsubscribe }
    }

    /// Decides on the next source value.
    pub fn on_next(&mut self) -> (a: TakeAction)
        requires
            old(self).view().taken <= old(self).view().limit,
        ensures
            (final(self).view(), a) == take_step(old(self).view()),
            final(self).view().taken <= final(self).view().limit,
    {
        if self.taken < self.limit {
            self.taken = self.taken + 1;
            TakeAction::Forward
        } else if !self.signal_sent {
            self.signal_sent = true;
            TakeAction::Unsubscribe
        } else {
            TakeAction::Ignore
        }
    }
}

/// Law: of any number `k` of source values, `take(n)` passes on exactly the
/// first `min(k, n)`, and tells the source to stop at most once (exactly
/// once when more than `n` values came and the source is not a subject).
pub proof fn law_take_passes_first_n(limit: nat, skip_unsubscribe: bool, k: nat)
    ensures
        ({
            let s = TakeView { taken: 0, limit, signal_sent: skip_unsubscribe };
            &&& take_forwards(s, k) == if k < limit {
                k
            } else {
                limit
            }
            &&& take_unsubscribes(s, k) == if !skip_unsubscribe && k > limit {
                1nat
            } else {
                0nat
            }
        }),
    decreases k,
{
    let s = TakeView { taken: 0, limit, signal_sent: skip_unsubscribe };
    if k > 0 {
        law_take_passes_first_n(limit, skip_unsubscribe, (k - 1) as nat);
        lemma_take_after(limit, skip_unsubscribe, (k - 1) as nat);
    }
}

/// The state of `take` after `k` decisions from the start.
proof fn lemma_take_after(limit: nat, skip_unsubscribe: bool, k: nat)
    ensures
        ({
            let s = TakeView { taken: 0, limit, signal_sent: skip_unsubscribe };
            &&& take_after(s, k).taken == if k < limit {
                k
            } else {
                limit
            }
            &&& take_after(s, k).limit == limit
            &&& take_after(s, k).signal_sent == (skip_unsubscribe || k > limit)
        }),
    decreases k,
{
    if k > 0 {
        lemma_take_after(limit, skip_unsubscribe, (k - 1) as nat);
    }
}

// ---------------------------------------------------------------- take_while

/// `take_while(p)`: passes values while they satisfy `p`; from the first one
/// that does not, passes nothing more and tells the source to stop.
pub struct TakeWhileGate {
    stopped: bool,
    signal_sent: bool,
}

pub ghost struct TakeWhileView {
    pub stopped: bool,
    pub signal_sent: bool,
}

/// One `take_while` decision, given whether the value satisfies the predicate.
pub open spec fn take_while_step(s: TakeWhileView, passes: bool) -> (TakeWhileView, TakeAction) {
    if !s.stopped && passes {
        (s, TakeAction::Forward)
    } else if !s.signal_sent {
        (TakeWhileView { stopped: true, signal_sent: true }, TakeAction::Unsubscribe)
    } else {
        (TakeWhileView { stopped: true, ..s }, TakeAction::Ignore)
    }
}

/// The state after the decisions on `ps` (the predicate results, in order).
pub open spec fn take_while_after(s: TakeWhileView, ps: Seq<bool>) -> TakeWhileView
    decreases ps.len(),
{
    if ps.len() == 0 {
        s
    } else {
        take_while_step(take_while_after(s, ps.drop_last()), ps.last()).0
    }
}

/// All results in `ps` are `true`.
pub open spec fn all_pass(ps: Seq<bool>) -> bool {
    forall|j: int| 0 <= j < ps.len() ==> #[trigger] ps[j]
}

impl TakeWhileGate {
    pub closed spec fn view(&self) -> TakeWhileView {
        TakeWhileView { stopped: self.stopped, signal_sent: self.signal_sent }
    }

    /// A gate that is open. On a subject the source is never told to stop
    /// (`skip_unsubscribe`).
    pub fn new(skip_unsubscribe: bool) -> (s: Self)
        ensures
            s.view() == (TakeWhileView { stopped: false, signal_sent: skip_unsubscribe }),
    {
        TakeWhileGate { stopped: false, signal_sent: skip_unsubscribe }
    }

    /// Decides on the next source value, given whether it satisfies the
    /// predicate.
    pub fn on_next(&mut self, passes: bool) -> (a: TakeAction)
        ensures
            (final(self).view(), a) == take_while_step(old(self).view(), passes),
    {
        if !self.stopped && passes {
            TakeAction::Forward
        } else if !self.signal_sent {
            self.stopped = true;
            self.signal_sent = true;
            TakeAction::Unsubscribe
        } else {
            self.stopped = true;
            TakeAction::Ignore
        }
    }
}

/// Law: a value reaches the output of `take_while` if and only if it and all
/// the values before it satisfy the predicate.
pub proof fn law_take_while_passes_prefix(skip_unsubscribe: bool, ps: Seq<bool>, p: bool)
    ensures
        ({
            let s0 = TakeWhileView { stopped: false, signal_sent: skip_unsubscribe };
            &&& !take_while_after(s0, ps).stopped == all_pass(ps)
            &&& (take_while_step(take_while_after(s0, ps), p).1 == TakeAction::Forward) == (
            all_pass(ps) && p)
        }),
    decreases ps.len(),
{
    let s0 = TakeWhileView { stopped: false, signal_sent: skip_unsubscribe };
    if ps.len() > 0 {
        law_take_while_passes_prefix(skip_unsubscribe, ps.drop_last(), ps.last());
        if all_pass(ps) {
            assert(all_pass(ps.drop_last()));
            assert(ps[ps.len() - 1]);
        } else if all_pass(ps.drop_last()) {
            let j = choose|j: int| 0 <= j < ps.len() && !ps[j];
            if j < ps.len() - 1 {
                assert(ps.drop_last()[j]);
            }
        }
    }
}

// ---------------------------------------------------------------- take_until

/// What `take_until` does on an event.
#[derive(Clone, Copy, Debug, PartialEq, Eq, Structural)]
pub struct TakeUntilStep {
    /// Pass the source value on.
    pub forward: bool,
    /// Complete the resulting observable.
    pub complete: bool,
    /// Tell the source to stop emitting.
    pub unsubscribe_source: bool,
    /// Unsubscribe from the notifier, if that is still to do.
    pub release_notifier: bool,
}

/// `take_until(notifier, unsubscribe_notifier)`: passes source values until
/// the notifier emits; at its first emission the result completes and the
/// source is told to stop.
pub struct TakeUntilGate {
    fired: bool,
    skip_unsubscribe: bool,
    unsubscribe_notifier: bool,
}

pub ghost struct TakeUntilView {
    /// The notifier has emitted.
    pub fired: bool,
    /// The source is never told to stop (it is a subject).
    pub skip_unsubscribe: bool,
    /// The notifier is to be unsubscribed once it has emitted.
    pub unsubscribe_notifier: bool,
}

/// What `take_until` does with a source value.
pub open spec fn take_until_on_next(s: TakeUntilView) -> (TakeUntilView, TakeUntilStep) {
    (
        s,
        TakeUntilStep {
            forward: !s.fired,
            complete: false,
            unsubscribe_source: false,
            release_notifier: s.fired && s.unsubscribe_notifier,
        },
    )
}

/// What `take_until` does when the notifier emits: the first emission
/// completes the result and stops the source; later ones change nothing.
pub open spec fn take_until_on_notifier(s: TakeUntilView) -> (TakeUntilView, TakeUntilStep) {
    if s.fired {
        (
            s,
            TakeUntilStep {
                forward: false,
                complete: false,
                unsubscribe_source: false,
                release_notifier: s.unsubscribe_notifier,
            },
        )
    } else {
        (
            TakeUntilView { fired: true, ..s },
            TakeUntilStep {
                forward: false,
                complete: true,
                unsubscribe_source: !s.skip_unsubscribe,
                release_notifier: s.unsubscribe_notifier,
            },
        )
    }
}

impl TakeUntilGate {
    pub closed spec fn view(&self) -> TakeUntilView {
        TakeUntilView {
            fired: self.fired,
            skip_unsubscribe: self.skip_unsubscribe,
            unsubscribe_notifier: self.unsubscribe_notifier,
        }
    }

    /// An open gate. On a subject the source is never told to stop
    /// (`skip_unsubscribe`).
    pub fn new(unsubscribe_notifier: bool, skip_unsubscribe: bool) -> (s: Self)
        ensures
            s.view() == (TakeUntilView { fired: false, skip_unsubscribe, unsubscribe_notifier }),
    {
        TakeUntilGate { fired: false, skip_unsubscribe, unsubscribe_notifier }
    }

    /// Decides on a source value.
    pub fn on_next(&self) -> (r: TakeUntilStep)
        ensures
            (self.view(), r) == take_until_on_next(self.view()),
    {
        TakeUntilStep {
            forward: !self.fired,
            complete: false,
            unsubscribe_source: false,
            release_notifier: self.fired && self.unsubscribe_notifier,
        }
    }

    /// Decides on an emission of the notifier.
    pub fn on_notifier(&mut self) -> (r: TakeUntilStep)
        ensures
            (final(self).view(), r) == take_until_on_notifier(old(self).view()),
    {
        if self.fired {
            TakeUntilStep {
                forward: false,
                complete: false,
                unsubscribe_source: false,
                release_notifier: self.unsubscribe_notifier,
            }
        } else {
            self.fired = true;
            TakeUntilStep {
                forward: false,
                complete: true,
                unsubscribe_source: !self.skip_unsubscribe,
                release_notifier: self.unsubscribe_notifier,
            }
        }
    }

    /// Whether the source's completion or error is passed on: only while the
    /// notifier has not emitted (after that the result has completed).
    pub fn on_source_end(&self) -> (pass: bool)
        ensures
            pass == !self.view().fired,
    {
        !self.fired
    }
}

/// Law: the notifier's first emission completes the result, once; from then
/// on no source value passes, later emissions of the notifier complete
/// nothing more, and the source's own end is not passed on.
pub proof fn law_take_until_completes_once(s: TakeUntilView)
    ensures
        ({
            let (t, r) = take_until_on_notifier(s);
            let (u, r2) = take_until_on_notifier(t);
            let (w, r3) = take_until_on_next(t);
            &&& t.fired
            &&& r.complete == !s.fired
            &&& !r2.complete && !r2.unsubscribe_source
            &&& !r3.forward && !r3.complete
            &&& u == t && w == t
        }),
{
}

/// Law: until the notifier emits, `take_until` passes every source value and
/// does nothing else.
pub proof fn law_take_until_passes_before_notifier(s: TakeUntilView)
    requires
        !s.fired,
    ensures
        take_until_on_next(s) == (s, TakeUntilStep {
            forward: true,
            complete: false,
            unsubscribe_source: false,
            release_notifier: false,
        }),
{
}

// ---------------------------------------------------------------- first

/// How `first` ends when its source completes.
pub enum FirstEnd<T> {
    /// A matching value was passed on: complete.
    Complete,
    /// No value matched: pass on the default value, then complete.
    EmitDefault(T),
    /// No value matched and there is no default: report an `EmptyError`.
    Empty,
}

/// `first(predicate, default)`: passes the first value that matches, then
/// tells the source to stop; on completion, falls back on the default.
pub struct FirstState<T> {
    found: bool,
    index: usize,
    default: Option<T>,
}

impl<T> FirstState<T> {
    pub closed spec fn found(&self) -> bool {
        self.found
    }

    pub closed spec fn position(&self) -> nat {
        self.index as nat
    }

    pub closed spec fn default_value(&self) -> Option<T> {
        self.default
    }

    /// A state that has seen nothing, with the given default value.
    pub fn new(default: Option<T>) -> (s: Self)
        ensures
            !s.found(),
            s.position() == 0,
            s.default_value() == default,
    {
        FirstState { found: false, index: 0, default }
    }

    /// The position of the next source value, which the predicate is given.
    pub fn index(&self) -> (r: usize)
        ensures
            r == self.position(),
    {
        self.index
    }

    /// Decides on the next source value, given whether it matches: `true` to
    /// pass it on and tell the source to stop.
    pub fn on_next(&mut self, matched: bool) -> (forward: bool)
        ensures
            forward == (!old(self).found() && matched),
            final(self).found() == (old(self).found() || matched),
            final(self).position() == if old(self).position() < usize::MAX {
                old(self).position() + 1
            } else {
                old(self).position()
            },
            final(self).default_value() == old(self).default_value(),
    {
        let forward = !self.found && matched;
        if forward {
            self.found = true;
        }
        self.index = self.index.saturating_add(1);
        forward
    }

    /// Decides how to end when the source completes.
    pub fn on_complete(&mut self) -> (r: FirstEnd<T>)
        ensures
            old(self).found() ==> r is Complete && *final(self) == *old(self),
            !old(self).found() ==> match old(self).default_value() {
                Some(v) => r == FirstEnd::EmitDefault(v),
                None => r is Empty,
            },
            !old(self).found() ==> final(self).default_value() is None,
            final(self).found() == old(self).found(),
    {
        if self.found {
            return FirstEnd::Complete;
        }
        match self.default.take() {
            Some(v) => FirstEnd::EmitDefault(v),
            None => FirstEnd::Empty,
        }
    }
}

/// How many of the results `ms` (whether each value matched, in order) make
/// `first` pass a value on, starting with `found`.
pub open spec fn first_forwards(found: bool, ms: Seq<bool>) -> nat
    decreases ms.len(),
{
    if ms.len() == 0 {
        0
    } else {
        first_forwards(found, ms.drop_last()) + if !(found || any_match(ms.drop_last()))
            && ms.last() {
            1nat
        } else {
            0nat
        }
    }
}

/// Some result in `ms` is `true`.
pub open spec fn any_match(ms: Seq<bool>) -> bool {
    exists|j: int| 0 <= j < ms.len() && #[trigger] ms[j]
}

/// Law: `first` passes on exactly one value if some value matches (the first
/// match), and none otherwise.
pub proof fn law_first_passes_first_match(ms: Seq<bool>)
    ensures
        first_forwards(false, ms) == if any_match(ms) {
            1nat
        } else {
            0nat
        },
    decreases ms.len(),
{
    if ms.len() > 0 {
        law_first_passes_first_match(ms.drop_last());
        if any_match(ms.drop_last()) {
            let j = choose|j: int| 0 <= j < ms.drop_last().len() && ms.drop_last()[j];
            assert(ms[j]);
        } else if any_match(ms) {
            let j = choose|j: int| 0 <= j < ms.len() && ms[j];
            if j < ms.len() - 1 {
                assert(ms.drop_last()[j]);
            }
        }
    }
}

// ---------------------------------------------------------------- exhaust_map

/// `exhaust_map`: starts an inner observable only when none is running.
pub struct ExhaustGate {
    active: bool,
}

impl ExhaustGate {
    pub closed spec fn active(&self) -> bool {
        self.active
    }

    pub fn new() -> (s: Self)
        ensures
            !s.active(),
    {
        ExhaustGate { active: false }
    }

    /// Asks to start an inner observable: `true` (and now active) if none was
    /// running, `false` (and ignored) otherwise.
    pub fn try_start(&mut self) -> (started: bool)
        ensures
            started == !old(self).active(),
            final(self).active(),
    {
        if self.active {
            return false;
        }
        self.active = true;
        true
    }

    /// The running inner observable completed.
    pub fn finish(&mut self)
        ensures
            !final(self).active(),
    {
        self.active = false;
    }
}

} // verus!
