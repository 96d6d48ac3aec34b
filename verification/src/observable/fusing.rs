//! How an observable and a subscriber agree on fusing when one subscribes to
//! the other.
use vstd::prelude::*;

verus! {

/// The fusing state `(fused, defused)` of an observable or a subscriber.
pub type FuseFlags = (bool, bool);

/// The subscriber's flags win when it is defused, or fused while the
/// observable is not; otherwise the observable's flags win.
pub open spec fn subscriber_wins(observable: FuseFlags, subscriber: FuseFlags) -> bool {
    subscriber.1 || (subscriber.0 && !observable.0)
}

/// The flags both sides take when `subscriber` subscribes to `observable`.
pub open spec fn agreed_flags(observable: FuseFlags, subscriber: FuseFlags) -> FuseFlags {
    if subscriber_wins(observable, subscriber) {
        subscriber
    } else {
        observable
    }
}

/// Settles the fusing state when a subscriber subscribes to an observable:
/// returns the new flags of the observable and of the subscriber.
pub fn resolve_fuse(observable: FuseFlags, subscriber: FuseFlags) -> (r: (FuseFlags, FuseFlags))
    ensures
        r.0 == agreed_flags(observable, subscriber),
        r.1 == agreed_flags(observable, subscriber),
{
    if subscriber.1 || (subscriber.0 && !observable.0) {
        (subscriber, subscriber)
    } else {
        (observable, observable)
    }
}

/// The flags `fuse()` sets: fused, not defused.
pub fn fused_flags() -> (r: FuseFlags)
    ensures
        r == (true, false),
{
    (true, false)
}

/// The flags `defuse()` sets: defused, not fused.
pub fn defused_flags() -> (r: FuseFlags)
    ensures
        r == (false, true),
{
    (false, true)
}

/// Law: once a subscriber has subscribed, both sides hold the same flags, and
/// subscribing again with those flags changes nothing.
pub proof fn law_fuse_agreement_is_stable(observable: FuseFlags, subscriber: FuseFlags)
    ensures
        agreed_flags(
            agreed_flags(observable, subscriber),
            agreed_flags(observable, subscriber),
        ) == agreed_flags(observable, subscriber),
{
}

/// Law: a defused subscriber always imposes its flags, and a fused observable
/// always keeps fusing for a subscriber that is not defused.
pub proof fn law_fuse_precedence(observable: FuseFlags, subscriber: FuseFlags)
    ensures
        subscriber.1 ==> agreed_flags(observable, subscriber) == subscriber,
        observable.0 && !subscriber.1 ==> agreed_flags(observable, subscriber) == observable,
{
}

} // verus!
