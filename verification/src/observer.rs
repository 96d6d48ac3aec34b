//! The `Observer` trait: what observes the notifications of a stream.
use vstd::prelude::*;

verus! {

/// Handles the three kinds of notification an observable stream sends:
/// a value, the successful completion, and an error.
pub trait Observer {
    /// The type of values emitted by the observable stream.
    type NextFnType;

    /// The type of the error payload.
    type ErrorType;

    /// The observer is in a state where it can take notifications.
    spec fn observer_ready(&self) -> bool;

    /// Handles an emitted value from the observable stream.
    fn next(&mut self, v: Self::NextFnType)
        requires
            old(self).observer_ready(),
        ensures
            final(self).observer_ready(),
    ;

    /// Handles the successful completion of the observable stream.
    fn complete(&mut self)
        requires
            old(self).observer_ready(),
        ensures
            final(self).observer_ready(),
    ;

    /// Handles an error occurrence during emission from the observable stream.
    fn error(&mut self, e: Self::ErrorType)
        requires
            old(self).observer_ready(),
        ensures
            final(self).observer_ready(),
    ;
}

} // verus!
