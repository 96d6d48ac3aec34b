//! `Subscriber`: an observer made of user callbacks, with the rules that
//! decide which notifications reach those callbacks; and the traits for
//! fusing and unsubscribing.
use vstd::prelude::*;

use crate::observer::Observer;

verus! {

/// Fusing state of an observable or a subscriber: the pair `(fused, defused)`.
pub trait Fuse {
    /// Sets the fusing state. The default keeps no state.
    fn set_fused(&mut self, _fused: bool, _defused: bool) {
    }

    /// Returns the fusing state. The default is neither fused nor defused.
    fn get_fused(&self) -> (r: (bool, bool))
        default_ensures
            r == (false, false),
    {
        (false, false)
    }
}

/// A handle that can be unsubscribed, releasing what it holds.
pub trait Unsubscribeable {
    /// Unsubscribes and consumes the handle.
    fn unsubscribe(self);
}

/// A notification as delivered to a subscriber's callbacks.
pub enum Notification<T, E> {
    Next(T),
    Error(E),
    Complete,
}

/// Callback run for each emitted value.
pub trait NextHandler<T>: Send + Sync {
    /// The callback accepts every value.
    spec fn accepts_all(&self) -> bool;

    fn handle_next(&mut self, v: T)
        requires
            old(self).accepts_all(),
        ensures
            final(self).accepts_all(),
    ;
}

/// Callback run when the stream ends with an error.
pub trait ErrorHandler<E>: Send + Sync {
    /// The callback accepts every error.
    spec fn accepts_all(&self) -> bool;

    fn handle_error(&mut self, e: E)
        requires
            old(self).accepts_all(),
        ensures
            final(self).accepts_all(),
    ;
}

/// Callback run when the stream completes.
pub trait CompleteHandler: Send + Sync {
    /// The callback can be run.
    spec fn accepts_all(&self) -> bool;

    fn handle_complete(&mut self)
        requires
            old(self).accepts_all(),
        ensures
            final(self).accepts_all(),
    ;
}

impl<T, F: FnMut(T) + Send + Sync> NextHandler<T> for F {
    open spec fn accepts_all(&self) -> bool {
        forall|v: T| call_requires(*self, (v,))
    }

    fn handle_next(&mut self, v: T)
        ensures
            call_ensures(*old(self), (v,), ()),
    {
        (self)(v);
    }
}

impl<E, F: FnMut(E) + Send + Sync> ErrorHandler<E> for F {
    open spec fn accepts_all(&self) -> bool {
        forall|e: E| call_requires(*self, (e,))
    }

    fn handle_error(&mut self, e: E)
        ensures
            call_ensures(*old(self), (e,), ()),
    {
        (self)(e);
    }
}

impl<F: FnMut() + Send + Sync> CompleteHandler for F {
    open spec fn accepts_all(&self) -> bool {
        call_requires(*self, ())
    }

    fn handle_complete(&mut self)
        ensures
            call_ensures(*old(self), (), ()),
    {
        (self)();
    }
}

/// The state of a subscriber as the rules see it, with the notifications
/// that reached its callbacks so far (`log`).
pub ghost struct SubscriberView<T, E> {
    pub completed: bool,
    pub errored: bool,
    pub fused: bool,
    pub defused: bool,
    pub take_wrapped: bool,
    pub has_complete_fn: bool,
    pub has_error_fn: bool,
    pub log: Seq<Notification<T, E>>,
    /// Every callback held accepts every input.
    pub ready: bool,
}

impl<T, E> SubscriberView<T, E> {
    /// A value passes unless the subscriber (not wrapped by `take`-like
    /// operators) has errored, or is fused and completed.
    pub open spec fn next_open(self) -> bool {
        self.take_wrapped || (!self.errored && !(self.fused && self.completed))
    }

    /// Completion and error pass unless the subscriber has errored, or is
    /// fused and completed.
    pub open spec fn terminal_open(self) -> bool {
        !self.errored && !(self.fused && self.completed)
    }

    pub open spec fn after_next(self, v: T) -> Self {
        if self.next_open() {
            SubscriberView { log: self.log.push(Notification::Next(v)), ..self }
        } else {
            self
        }
    }

    /// Completion passes unless the subscriber is closed: it marks the
    /// subscriber completed, and reaches the completion callback if there is
    /// one.
    pub open spec fn after_complete(self) -> Self {
        if self.terminal_open() {
            SubscriberView {
                log: if self.has_complete_fn {
                    self.log.push(Notification::Complete)
                } else {
                    self.log
                },
                completed: true,
                ..self
            }
        } else {
            self
        }
    }

    /// An error passes unless the subscriber is closed: it marks the
    /// subscriber errored, and reaches the error callback if there is one.
    pub open spec fn after_error(self, e: E) -> Self {
        if self.terminal_open() {
            SubscriberView {
                log: if self.has_error_fn {
                    self.log.push(Notification::Error(e))
                } else {
                    self.log
                },
                errored: true,
                ..self
            }
        } else {
            self
        }
    }

    /// The state of a freshly built subscriber.
    pub open spec fn fresh(has_error_fn: bool, has_complete_fn: bool) -> Self {
        SubscriberView {
            completed: false,
            errored: false,
            fused: false,
            defused: false,
            take_wrapped: false,
            has_complete_fn,
            has_error_fn,
            log: Seq::empty(),
            ready: true,
        }
    }

    pub open spec fn with_fused(self, fused: bool, defused: bool) -> Self {
        SubscriberView { fused, defused, ..self }
    }

    /// The state after one notification is offered.
    pub open spec fn apply(self, n: Notification<T, E>) -> Self {
        match n {
            Notification::Next(v) => self.after_next(v),
            Notification::Error(e) => self.after_error(e),
            Notification::Complete => self.after_complete(),
        }
    }

    /// The state after a sequence of notifications is offered, in order.
    pub open spec fn apply_all(self, ns: Seq<Notification<T, E>>) -> Self
        decreases ns.len(),
    {
        if ns.len() == 0 {
            self
        } else {
            self.apply_all(ns.drop_last()).apply(ns.last())
        }
    }

    /// No notification has reached the callbacks yet.
    pub open spec fn untouched(self) -> bool {
        self.log.len() == 0 && !self.errored && !self.completed
    }

    /// An error, if one was delivered, was delivered once and last, and the
    /// subscriber is marked errored.
    pub open spec fn error_is_last(self) -> bool {
        forall|i: int| 0 <= i < self.log.len() && (#[trigger] self.log[i] is Error) ==> i
            == self.log.len() - 1 && self.errored
    }

    /// A terminal notification (error or completion), if one was delivered,
    /// was delivered once and last, and at most one of the two ends happened.
    pub open spec fn terminal_is_last(self) -> bool {
        &&& !(self.errored && self.completed)
        &&& forall|i: int| 0 <= i < self.log.len() && !(#[trigger] self.log[i] is Next) ==> i
            == self.log.len() - 1 && (self.errored || self.completed)
    }

    /// Nothing reaches the subscriber any more: it has errored, or it is fused
    /// and completed (and it is not wrapped by a `take`-like operator).
    pub open spec fn closed(self) -> bool {
        !self.take_wrapped && (self.errored || (self.fused && self.completed))
    }
}

/// A closed subscriber is left as it is by any notification.
proof fn lemma_closed_step<T, E>(s: SubscriberView<T, E>, n: Notification<T, E>)
    requires
        s.closed(),
    ensures
        s.apply(n) == s,
{
}

/// The invariant `error_is_last` survives one notification.
proof fn lemma_error_is_last_step<T, E>(s: SubscriberView<T, E>, n: Notification<T, E>)
    requires
        s.error_is_last(),
        !s.take_wrapped,
    ensures
        s.apply(n).error_is_last(),
        !s.apply(n).take_wrapped,
{
    let t = s.apply(n);
    if !s.errored {
        assert forall|i: int| 0 <= i < t.log.len() && (#[trigger] t.log[i] is Error) implies i
            == t.log.len() - 1 && t.errored by {
            if i < s.log.len() {
                assert(t.log[i] == s.log[i]);
            }
        }
    }
}

/// The invariant `terminal_is_last` of a fused subscriber survives one
/// notification.
proof fn lemma_terminal_is_last_step<T, E>(s: SubscriberView<T, E>, n: Notification<T, E>)
    requires
        s.terminal_is_last(),
        s.fused,
        !s.take_wrapped,
    ensures
        s.apply(n).terminal_is_last(),
        s.apply(n).fused,
        !s.apply(n).take_wrapped,
{
    let t = s.apply(n);
    if !s.errored && !s.completed {
        assert forall|i: int| 0 <= i < t.log.len() && !(#[trigger] t.log[i] is Next) implies i
            == t.log.len() - 1 && (t.errored || t.completed) by {
            if i < s.log.len() {
                assert(t.log[i] == s.log[i]);
            }
        }
    }
}

/// Law: once a subscriber (not wrapped by a `take`-like operator) has errored,
/// or is fused and has completed, nothing reaches it any more, whether or
/// not it has callbacks for errors and completion.
pub proof fn law_closed_subscriber_hears_nothing<T, E>(s: SubscriberView<T, E>, ns: Seq<Notification<T, E>>)
    requires
        s.closed(),
    ensures
        s.apply_all(ns) == s,
    decreases ns.len(),
{
    if ns.len() > 0 {
        law_closed_subscriber_hears_nothing(s, ns.drop_last());
        lemma_closed_step(s, ns.last());
    }
}

/// Law: once a subscriber (not wrapped by a `take`-like operator) has received
/// an error, nothing more reaches it. Whatever notifications are offered to
/// a subscriber that has received none, an error reaches it at most once,
/// and only as the last notification it received.
pub proof fn law_error_is_final<T, E>(s: SubscriberView<T, E>, ns: Seq<Notification<T, E>>)
    requires
        s.untouched(),
        !s.take_wrapped,
    ensures
        s.apply_all(ns).error_is_last(),
    decreases ns.len(),
{
    if ns.len() > 0 {
        law_error_is_final(s, ns.drop_last());
        lemma_apply_all_keeps_flags(s, ns.drop_last());
        lemma_error_is_last_step(s.apply_all(ns.drop_last()), ns.last());
    }
}

/// Law: a fused subscriber (not wrapped by a `take`-like operator) receives
/// at most one terminal notification (error or completion), and nothing
/// after it.
pub proof fn law_fused_terminal_is_final<T, E>(s: SubscriberView<T, E>, ns: Seq<Notification<T, E>>)
    requires
        s.untouched(),
        s.fused,
        !s.take_wrapped,
    ensures
        s.apply_all(ns).terminal_is_last(),
    decreases ns.len(),
{
    if ns.len() > 0 {
        law_fused_terminal_is_final(s, ns.drop_last());
        lemma_apply_all_keeps_flags(s, ns.drop_last());
        lemma_terminal_is_last_step(s.apply_all(ns.drop_last()), ns.last());
    }
}

/// Notifications leave the fusing and wrapping flags as they were.
proof fn lemma_apply_all_keeps_flags<T, E>(s: SubscriberView<T, E>, ns: Seq<Notification<T, E>>)
    ensures
        s.apply_all(ns).fused == s.fused,
        s.apply_all(ns).defused == s.defused,
        s.apply_all(ns).take_wrapped == s.take_wrapped,
        s.apply_all(ns).has_complete_fn == s.has_complete_fn,
        s.apply_all(ns).has_error_fn == s.has_error_fn,
        s.apply_all(ns).ready == s.ready,
    decreases ns.len(),
{
    if ns.len() > 0 {
        lemma_apply_all_keeps_flags(s, ns.drop_last());
    }
}

type NextFn<T> = Box<dyn NextHandler<T>>;

type ErrorFn<E> = Box<dyn ErrorHandler<E>>;

type CompleteFn = Box<dyn CompleteHandler>;

/// An observer built from callbacks for values, errors and completion.
#[verifier::reject_recursive_types(T)]
#[verifier::reject_recursive_types(E)]
pub struct Subscriber<T, E> {
    next_fn: NextFn<T>,
    complete_fn: Option<CompleteFn>,
    error_fn: Option<ErrorFn<E>>,
    completed: bool,
    fused: bool,
    defused: bool,
    take_wrapped: bool,
    errored: bool,
    log: Ghost<Seq<Notification<T, E>>>,
}

impl<T, E> View for Subscriber<T, E> {
    type V = SubscriberView<T, E>;

    closed spec fn view(&self) -> SubscriberView<T, E> {
        SubscriberView {
            completed: self.completed,
            errored: self.errored,
            fused: self.fused,
            defused: self.defused,
            take_wrapped: self.take_wrapped,
            has_complete_fn: self.complete_fn is Some,
            has_error_fn: self.error_fn is Some,
            log: self.log@,
            ready: self.next_fn.accepts_all() && (self.complete_fn matches Some(c) ==> c.accepts_all())
                && (self.error_fn matches Some(f) ==> f.accepts_all()),
        }
    }
}

impl<T, E> Subscriber<T, E> {
    /// Creates a subscriber with callbacks for values, errors and completion.
    pub fn new(
        next_fn: impl FnMut(T) + 'static + Send + Sync,
        error_fn: impl FnMut(E) + 'static + Send + Sync,
        complete_fn: impl FnMut() + 'static + Send + Sync,
    ) -> (s: Self)
        requires
            forall|v: T| call_requires(next_fn, (v,)),
            forall|e: E| call_requires(error_fn, (e,)),
            call_requires(complete_fn, ()),
        ensures
            s@ == SubscriberView::<T, E>::fresh(true, true),
    {
        Subscriber {
            next_fn: Box::new(next_fn),
            complete_fn: Some(Box::new(complete_fn)),
            error_fn: Some(Box::new(error_fn)),
            completed: false,
            fused: false,
            defused: false,
            take_wrapped: false,
            errored: false,
            log: Ghost(Seq::empty()),
        }
    }

    /// Creates a subscriber with a callback for values only.
    pub fn on_next(next_fn: impl FnMut(T) + 'static + Send + Sync) -> (s: Self)
        requires
            forall|v: T| call_requires(next_fn, (v,)),
        ensures
            s@ == SubscriberView::<T, E>::fresh(false, false),
    {
        Subscriber {
            next_fn: Box::new(next_fn),
            complete_fn: None,
            error_fn: None,
            completed: false,
            fused: false,
            defused: false,
            take_wrapped: false,
            errored: false,
            log: Ghost(Seq::empty()),
        }
    }

    /// Sets the completion callback.
    pub fn on_complete(&mut self, complete_fn: impl FnMut() + 'static + Send + Sync)
        requires
            old(self)@.ready,
            call_requires(complete_fn, ()),
        ensures
            final(self)@ == (SubscriberView { has_complete_fn: true, ..old(self)@ }),
    {
        self.complete_fn = Some(Box::new(complete_fn));
    }

    /// Sets the error callback.
    pub fn on_error(&mut self, error_fn: impl FnMut(E) + 'static + Send + Sync)
        requires
            old(self)@.ready,
            forall|e: E| call_requires(error_fn, (e,)),
        ensures
            final(self)@ == (SubscriberView { has_error_fn: true, ..old(self)@ }),
    {
        self.error_fn = Some(Box::new(error_fn));
    }

    /// `true` when the subscriber is fused and not defused.
    pub fn is_fused(&self) -> (r: bool)
        ensures
            r == (self@.fused && !self@.defused),
    {
        self.fused && !self.defused
    }

    /// Marks the subscriber as wrapped by an operator that unsubscribes its
    /// source itself (`take` and the like): values then pass after an error.
    pub fn set_take_wrapped(&mut self, take_wrapped: bool)
        ensures
            final(self)@ == (SubscriberView { take_wrapped, ..old(self)@ }),
    {
        self.take_wrapped = take_wrapped;
    }

    /// Whether the subscriber is wrapped by a `take`-like operator.
    pub fn is_take_wrapped(&self) -> (r: bool)
        ensures
            r == self@.take_wrapped,
    {
        self.take_wrapped
    }

    /// Delivers a value to the value callback, unless the rules hold it back.
    pub fn deliver_next(&mut self, v: T)
        requires
            old(self)@.ready,
        ensures
            final(self)@ == old(self)@.after_next(v),
    {
        if (!self.take_wrapped && self.errored) || (!self.take_wrapped && self.fused
            && self.completed) {
            return;
        }
        proof {
            self.log@ = self.log@.push(Notification::Next(v));
        }
        self.next_fn.handle_next(v);
    }

    /// Delivers the completion, unless the rules hold it back: the subscriber
    /// is then completed, and the completion callback runs if there is one.
    pub fn deliver_complete(&mut self)
        requires
            old(self)@.ready,
        ensures
            final(self)@ == old(self)@.after_complete(),
    {
        if self.errored || (self.fused && self.completed) {
            return;
        }
        match &mut self.complete_fn {
            Some(cfn) => {
                cfn.handle_complete();
                proof {
                    self.log@ = self.log@.push(Notification::Complete);
                }
            },
            None => {},
        }
        self.completed = true;
    }

    /// Delivers the error, unless the rules hold it back: the subscriber is
    /// then errored, and the error callback runs if there is one.
    pub fn deliver_error(&mut self, e: E)
        requires
            old(self)@.ready,
        ensures
            final(self)@ == old(self)@.after_error(e),
    {
        if self.errored || (self.fused && self.completed) {
            return;
        }
        match &mut self.error_fn {
            Some(efn) => {
                proof {
                    self.log@ = self.log@.push(Notification::Error(e));
                }
                efn.handle_error(e);
            },
            None => {},
        }
        self.errored = true;
    }
}

impl<T, E> Fuse for Subscriber<T, E> {
    fn set_fused(&mut self, fused: bool, defused: bool)
        ensures
            final(self)@ == old(self)@.with_fused(fused, defused),
    {
        self.fused = fused;
        self.defused = defused;
    }

    fn get_fused(&self) -> (r: (bool, bool))
        ensures
            r == (self@.fused, self@.defused),
    {
        (self.fused, self.defused)
    }
}

impl<T, E> Observer for Subscriber<T, E> {
    type NextFnType = T;

    type ErrorType = E;

    open spec fn observer_ready(&self) -> bool {
        self@.ready
    }

    fn next(&mut self, v: T)
        ensures
            final(self)@ == old(self)@.after_next(v),
    {
        self.deliver_next(v)
    }

    fn complete(&mut self)
        ensures
            final(self)@ == old(self)@.after_complete(),
    {
        self.deliver_complete()
    }

    fn error(&mut self, e: E)
        ensures
            final(self)@ == old(self)@.after_error(e),
    {
        self.deliver_error(e)
    }
}

} // verus!
