# rxr

Reactive extensions for Rust: observables, operators, subscribers and
subjects, with the rules that decide which notifications reach which observer
proved by Verus.

## Layout

- `src/` is the verified library.
  - `subscription/subscribe.rs`: `Subscriber`, its notification rules (what an
    errored, completed or fused subscriber still lets through) and the laws
    that follow from them; `subscription/partition.rs`: the order-keeping
    split used when a collection of subscriptions is joined; and
    `subscription/scheduling.rs`: when unsubscribing runs in a Tokio task.
  - `subjects/`: the four subjects (`Subject`, `BehaviorSubject`,
    `AsyncSubject`, `ReplaySubject`). Each keeps its state behind a lock whose
    invariant is the state's well-formedness; the state types say exactly what
    every observer receives on each emission and on subscription, and
    `registry.rs` states the laws over whole histories of calls (which
    observers stay registered; subscribing then unsubscribing).
    The emitter and receiver handles reach that state through a lock shared
    by all their clones: their own contracts can only say which subject they
    share (a value behind a lock can be named across calls only with tracked
    ghost state, which this crate does not use), so what an emission or a
    subscription does is stated on the state types, one call down.
  - `observable/`: the decision state of the operators (`skip`, `take`,
    `take_while`, `take_until`, `first`, `exhaust_map`, `take_last`, `buffer`,
    `debounce`, `concat_map`, `zip`, `scan`), fusing, and timestamps.
  - `errors/`, `clock.rs`: error types, and the clock readings the library
    takes as they come.
- `app/` is the part that runs on threads and Tokio: `Observable` and its
  operators, subscriptions and connectable observables. It feeds the verified
  state types with events and performs the actions they return.
- `tests/` exercises the library on concrete values.
