//! Where unsubscribing runs: in a Tokio task, or synchronously.
use vstd::prelude::*;

verus! {

/// Whether unsubscribing runs in a Tokio task: when something to unsubscribe
/// runs asynchronously, except on a runtime of the current-thread flavour,
/// where a task could not start before the caller (such as `take`) needs the
/// unsubscription done.
pub fn unsubscribe_in_task(any_async: bool, current_thread_runtime: bool) -> (r: bool)
    ensures
        r == (any_async && !current_thread_runtime),
{
    any_async && !current_thread_runtime
}

} // verus!
