//! The running accumulation of the `scan` operator.
use vstd::prelude::*;

verus! {

/// `scan`: the value accumulated so far, if any. Before the first source
/// value it is the seed, when one was given.
pub struct ScanState<U> {
    acc: Option<U>,
}

impl<U> ScanState<U> {
    /// The value accumulated so far.
    pub closed spec fn current(&self) -> Option<U> {
        self.acc
    }

    /// Starts the accumulation at `seed`.
    pub fn new(seed: Option<U>) -> (s: Self)
        ensures
            s.current() == seed,
    {
        ScanState { acc: seed }
    }

    /// Folds the source value `v` in: with nothing accumulated yet, `v`
    /// itself, converted by `lift`, starts the accumulation; otherwise `acc`
    /// combines the accumulated value with `v`. Returns a clone of the new
    /// accumulated value, which is what `scan` emits.
    pub fn step<T, F: FnOnce(U, T) -> U, G: FnOnce(T) -> U>(&mut self, v: T, acc: F, lift: G) -> (r: U)
        where
            U: Clone,
        requires
            old(self).current() is None ==> call_requires(lift, (v,)),
            old(self).current() matches Some(s) ==> call_requires(acc, (s, v)),
        ensures
            final(self).current() is Some,
            cloned(final(self).current()->Some_0, r),
            old(self).current() is None ==> call_ensures(lift, (v,), final(self).current()->Some_0),
            old(self).current() matches Some(s) ==> call_ensures(acc, (s, v), final(self).current()->Some_0),
    {
        let next = match self.acc.take() {
            None => lift(v),
            Some(s) => acc(s, v),
        };
        let out = next.clone();
        self.acc = Some(next);
        out
    }
}

} // verus!
