use std::error::Error;
use std::sync::{Arc, Mutex};

use rxr::subjects::replay_subject::fresh_within;
use rxr::subjects::{BufSize, EmittedValueEntry, ReplaySubject};
use rxr::subscribe::Subscriber;
use rxr::Observer;

type Fault = Arc<dyn Error + Send + Sync>;

#[derive(Debug)]
pub struct CustomError;

impl std::fmt::Display for CustomError {
    fn fmt(&self, f: &mut std::fmt::Formatter) -> std::fmt::Result {
        f.write_str("Custom error occurred")
    }
}

impl Error for CustomError {}

type Register = Arc<Mutex<Vec<i32>>>;

fn register_emissions_subscriber() -> (
    Vec<Box<dyn FnOnce() -> Subscriber<i32, Fault>>>,
    Register,
    Register,
    Register,
) {
    let nexts: Register = Arc::new(Mutex::new(Vec::with_capacity(5)));
    let completes: Register = Arc::new(Mutex::new(Vec::with_capacity(5)));
    let errors: Register = Arc::new(Mutex::new(Vec::with_capacity(5)));

    let mut make_subscriber: Vec<Box<dyn FnOnce() -> Subscriber<i32, Fault>>> = Vec::new();
    for _ in 0..10 {
        let nexts_c = Arc::clone(&nexts);
        let completes_c = Arc::clone(&completes);
        let errors_c = Arc::clone(&errors);
        make_subscriber.push(Box::new(move || {
            Subscriber::new(
                move |n| {
                    // Track next() calls.
                    nexts_c.lock().unwrap().push(n);
                },
                move |_: Fault| {
                    // Track error() calls.
                    errors_c.lock().unwrap().push(1);
                },
                move || {
                    // Track complete() calls.
                    completes_c.lock().unwrap().push(1);
                },
            )
        }));
    }
    (make_subscriber, nexts, completes, errors)
}

/// Waits `ms` milliseconds by watching the monotonic clock.
fn wait_ms(ms: u64) {
    let start = std::time::Instant::now();
    while start.elapsed() < std::time::Duration::from_millis(ms) {}
}

#[test]
fn replay_subject_replay_subject_emit_than_complete() {
    let (mut make_subscriber, nexts, completes, errors) = register_emissions_subscriber();

    let x = make_subscriber.pop().unwrap()();
    let (mut stx, mut srx) = ReplaySubject::<i32, Fault>::emitter_receiver(BufSize::Limited(5));

    // Emitting a value without any registered subscribers yet; still storing the emitted value.
    stx.next(1);

    assert_eq!(srx.len(), 0);
    assert_eq!(nexts.lock().unwrap().len(), 0);
    assert_eq!(nexts.lock().unwrap().last(), None);
    assert_eq!(completes.lock().unwrap().len(), 0);
    assert_eq!(errors.lock().unwrap().len(), 0);

    // Register a subscriber and emit the stored value.
    srx.subscribe(x); // 1st

    assert_eq!(srx.len(), 1);
    assert_eq!(nexts.lock().unwrap().len(), 1);
    assert_eq!(nexts.lock().unwrap().last(), Some(&1));
    assert_eq!(completes.lock().unwrap().len(), 0);
    assert_eq!(errors.lock().unwrap().len(), 0);

    // Store emitted value on single subscriber emit.
    stx.next(2);

    assert_eq!(srx.len(), 1);
    assert_eq!(nexts.lock().unwrap().len(), 2);
    assert_eq!(nexts.lock().unwrap().last(), Some(&2));
    assert_eq!(completes.lock().unwrap().len(), 0);
    assert_eq!(errors.lock().unwrap().len(), 0);

    // Store two emitted values with two subsequent emissions to a single subscriber.
    stx.next(3);
    stx.next(4);

    assert_eq!(srx.len(), 1);
    assert_eq!(nexts.lock().unwrap().len(), 4);
    assert_eq!(nexts.lock().unwrap().last(), Some(&4));
    assert_eq!(completes.lock().unwrap().len(), 0);
    assert_eq!(errors.lock().unwrap().len(), 0);

    // Emit all stored values upon registration of additional subscribers.
    let y = make_subscriber.pop().unwrap()();
    let z = make_subscriber.pop().unwrap()();
    srx.subscribe(y); // 2nd
    srx.subscribe(z); // 3rd

    assert_eq!(srx.len(), 3);
    assert_eq!(nexts.lock().unwrap().len(), 12);
    assert_eq!(nexts.lock().unwrap().last(), Some(&4));
    assert_eq!(completes.lock().unwrap().len(), 0);
    assert_eq!(errors.lock().unwrap().len(), 0);

    // Store emitted value upon emitting again to the three registered subscribers.
    stx.next(5);

    // Store emitted value upon emitting again to the three registered subscribers.
    // Buffer is full, removing oldest stored value from the buffer to accommodate
    // the new one.
    stx.next(6);

    assert_eq!(srx.len(), 3);
    assert_eq!(nexts.lock().unwrap().len(), 18);
    assert_eq!(nexts.lock().unwrap().last(), Some(&6));
    assert_eq!(completes.lock().unwrap().len(), 0);
    assert_eq!(errors.lock().unwrap().len(), 0);

    // Signal completion for the ReplaySubject.
    stx.complete();

    assert_eq!(srx.len(), 0);
    assert_eq!(nexts.lock().unwrap().len(), 18);
    assert_eq!(completes.lock().unwrap().len(), 3);
    assert_eq!(errors.lock().unwrap().len(), 0);

    // Emitting values after completion upon registering another subscriber.
    let z = make_subscriber.pop().unwrap()();

    // Emit stored values upon subscription even after completion.
    srx.subscribe(z); // 4th

    // Disregard emissions after completion.
    stx.next(7);
    stx.next(8);
    stx.next(9);

    assert_eq!(srx.len(), 0);
    assert_eq!(nexts.lock().unwrap().len(), 23); // 18 stored values + 5 stored values
    assert_eq!(completes.lock().unwrap().len(), 4);
    assert_eq!(errors.lock().unwrap().len(), 0);
}

#[test]
fn replay_subject_replay_subject_emit_than_error() {
    let (mut make_subscriber, nexts, completes, errors) = register_emissions_subscriber();

    let x = make_subscriber.pop().unwrap()();
    let y = make_subscriber.pop().unwrap()();
    let z = make_subscriber.pop().unwrap()();

    let (mut stx, mut srx) = ReplaySubject::<i32, Fault>::emitter_receiver(BufSize::Infinite);

    // Registering several subscribers.
    srx.subscribe(x); // 1st
    srx.subscribe(y); // 2nd
    srx.subscribe(z); // 3rd

    assert_eq!(srx.len(), 3);
    assert_eq!(nexts.lock().unwrap().len(), 0);
    assert_eq!(completes.lock().unwrap().len(), 0);
    assert_eq!(errors.lock().unwrap().len(), 0);

    // Emitting several values.
    stx.next(1);
    stx.next(2);
    stx.next(3);

    assert_eq!(srx.len(), 3);
    assert_eq!(nexts.lock().unwrap().len(), 9);
    assert_eq!(completes.lock().unwrap().len(), 0);
    assert_eq!(errors.lock().unwrap().len(), 0);

    // Trigger an error on a ReplaySubject.
    stx.error(Arc::new(CustomError));

    assert_eq!(srx.len(), 0);
    assert_eq!(nexts.lock().unwrap().len(), 9);
    assert_eq!(completes.lock().unwrap().len(), 0);
    assert_eq!(errors.lock().unwrap().len(), 3);

    // After triggering an error, register another subscriber and emit some values.
    let z = make_subscriber.pop().unwrap()();
    srx.subscribe(z); // 4th
    stx.next(4);
    stx.next(5);
    stx.next(6);

    // Should emit both, values and an error.
    assert_eq!(srx.len(), 0);
    assert_eq!(nexts.lock().unwrap().len(), 12);
    assert_eq!(completes.lock().unwrap().len(), 0);
    assert_eq!(errors.lock().unwrap().len(), 4);
}

#[test]
fn replay_subject_replay_subject_emit_than_complete_time_aware() {
    let (mut make_subscriber, nexts, completes, errors) = register_emissions_subscriber();

    let x = make_subscriber.pop().unwrap()();

    // Initializing a ReplaySubject with a time-aware value buffer.
    let (mut stx, mut srx) = ReplaySubject::<i32, Fault>::emitter_receiver_time_aware(BufSize::Limited(10), 500);

    // Emitting a value without any registered subscribers yet; still
    // storing the emitted value.
    stx.next(1);
    stx.next(2);

    assert_eq!(srx.len(), 0);
    assert_eq!(nexts.lock().unwrap().len(), 0);
    assert_eq!(nexts.lock().unwrap().last(), None);
    assert_eq!(completes.lock().unwrap().len(), 0);
    assert_eq!(errors.lock().unwrap().len(), 0);

    // Registering a subscriber and emitting the stored value.
    srx.subscribe(x); // 1st

    assert_eq!(srx.len(), 1);
    assert_eq!(nexts.lock().unwrap().len(), 2);
    assert_eq!(nexts.lock().unwrap().last(), Some(&2));
    assert_eq!(completes.lock().unwrap().len(), 0);
    assert_eq!(errors.lock().unwrap().len(), 0);

    // Allow time for the time-aware ReplaySubject to remove old values from the buffer.
    wait_ms(700);

    // Registering additional subscribers. No emissions should occur as previously
    // registered values are outdated.
    let y = make_subscriber.pop().unwrap()();
    let z = make_subscriber.pop().unwrap()();
    srx.subscribe(y); // 2nd
    srx.subscribe(z); // 3rd

    assert_eq!(srx.len(), 3);
    assert_eq!(nexts.lock().unwrap().len(), 2);
    assert_eq!(nexts.lock().unwrap().last(), Some(&2));
    assert_eq!(completes.lock().unwrap().len(), 0);
    assert_eq!(errors.lock().unwrap().len(), 0);

    stx.next(3);

    wait_ms(700);
    stx.next(4);

    assert_eq!(srx.len(), 3);
    assert_eq!(nexts.lock().unwrap().len(), 8);
    assert_eq!(nexts.lock().unwrap().last(), Some(&4));
    assert_eq!(completes.lock().unwrap().len(), 0);
    assert_eq!(errors.lock().unwrap().len(), 0);

    // Completing the ReplaySubject.
    stx.complete();

    // The emissions after completion are disregarded.
    stx.next(5);
    stx.next(6);

    assert_eq!(srx.len(), 0);
    assert_eq!(nexts.lock().unwrap().len(), 8);
    assert_eq!(nexts.lock().unwrap().last(), Some(&4));
    assert_eq!(completes.lock().unwrap().len(), 3);
    assert_eq!(errors.lock().unwrap().len(), 0);

    // ReplaySubject emits upon subscription even after completion.
    let z = make_subscriber.pop().unwrap()();
    srx.subscribe(z); // 4th

    assert_eq!(srx.len(), 0);
    assert_eq!(nexts.lock().unwrap().len(), 9);
    assert_eq!(nexts.lock().unwrap().last(), Some(&4));
    assert_eq!(completes.lock().unwrap().len(), 4);
    assert_eq!(errors.lock().unwrap().len(), 0);
}

#[test]
fn replay_subject_replay_subject_emit_than_error_time_aware() {
    let (mut make_subscriber, nexts, completes, errors) = register_emissions_subscriber();

    let x = make_subscriber.pop().unwrap()();

    // Initializing a ReplaySubject with a time-aware value buffer.
    let (mut stx, mut srx) = ReplaySubject::<i32, Fault>::emitter_receiver_time_aware(BufSize::Limited(10), 500);

    // Emitting a value without any registered subscribers yet; still
    // storing the emitted values.
    stx.next(1);
    stx.next(2);

    assert_eq!(srx.len(), 0);
    assert_eq!(nexts.lock().unwrap().len(), 0);
    assert_eq!(nexts.lock().unwrap().last(), None);
    assert_eq!(completes.lock().unwrap().len(), 0);
    assert_eq!(errors.lock().unwrap().len(), 0);

    // Registering a subscriber and emitting the stored value.
    srx.subscribe(x); // 1st

    assert_eq!(srx.len(), 1);
    assert_eq!(nexts.lock().unwrap().len(), 2);
    assert_eq!(nexts.lock().unwrap().last(), Some(&2));
    assert_eq!(completes.lock().unwrap().len(), 0);
    assert_eq!(errors.lock().unwrap().len(), 0);

    // Waiting for some time to allow the time-aware ReplaySubject to remove old
    // values from the buffer.
    wait_ms(700);

    // Registering additional subscribers. No emissions should occur as previously
    // registered values are outdated.
    let y = make_subscriber.pop().unwrap()();
    let z = make_subscriber.pop().unwrap()();
    srx.subscribe(y); // 2nd
    srx.subscribe(z); // 3rd

    assert_eq!(srx.len(), 3);
    assert_eq!(nexts.lock().unwrap().len(), 2);
    assert_eq!(nexts.lock().unwrap().last(), Some(&2));
    assert_eq!(completes.lock().unwrap().len(), 0);
    assert_eq!(errors.lock().unwrap().len(), 0);

    stx.next(3);

    wait_ms(700);
    stx.next(4);

    assert_eq!(srx.len(), 3);
    assert_eq!(nexts.lock().unwrap().len(), 8);
    assert_eq!(nexts.lock().unwrap().last(), Some(&4));
    assert_eq!(completes.lock().unwrap().len(), 0);
    assert_eq!(errors.lock().unwrap().len(), 0);

    // Trigger an error on the ReplaySubject.
    stx.error(Arc::new(CustomError));

    // The emissions after encountering an error are ignored.
    stx.next(5);
    stx.next(6);

    assert_eq!(srx.len(), 0);
    assert_eq!(nexts.lock().unwrap().len(), 8);
    assert_eq!(nexts.lock().unwrap().last(), Some(&4));
    assert_eq!(completes.lock().unwrap().len(), 0);
    assert_eq!(errors.lock().unwrap().len(), 3);

    // ReplaySubject emits upon subscription even after triggering an error.
    let z = make_subscriber.pop().unwrap()();
    srx.subscribe(z); // 4th

    assert_eq!(srx.len(), 0);
    assert_eq!(nexts.lock().unwrap().len(), 9);
    assert_eq!(nexts.lock().unwrap().last(), Some(&4));
    assert_eq!(completes.lock().unwrap().len(), 0);
    assert_eq!(errors.lock().unwrap().len(), 4);
}

fn recording(seen: &Register) -> Subscriber<i32, Fault> {
    let s = Arc::clone(seen);
    Subscriber::on_next(move |v| s.lock().unwrap().push(v))
}

#[test]
fn replay_keeps_exactly_the_values_read_within_the_window() {
    let mut state: ReplaySubject<i32, Fault> = ReplaySubject::new(BufSize::Limited(10), Some(500));
    state.emit_next(1);
    state.emit_next(2);
    state.emit_next(3);
    let seen: Register = Arc::new(Mutex::new(Vec::new()));
    assert!(state.subscribe_keyed(7, recording(&seen), &vec![700, 500, 10]));
    assert_eq!(*seen.lock().unwrap(), vec![2, 3]);
    let later: Register = Arc::new(Mutex::new(Vec::new()));
    assert!(state.subscribe_keyed(8, recording(&later), &vec![900, 501]));
    assert!(later.lock().unwrap().is_empty());
}

#[test]
fn replay_without_window_ignores_readings() {
    let mut state: ReplaySubject<i32, Fault> = ReplaySubject::new(BufSize::Infinite, None);
    state.emit_next(1);
    state.emit_next(2);
    assert!(state.elapsed_readings().is_empty());
    let seen: Register = Arc::new(Mutex::new(Vec::new()));
    assert!(state.subscribe_keyed(1, recording(&seen), &vec![]));
    assert_eq!(*seen.lock().unwrap(), vec![1, 2]);
}

#[test]
fn freshness_compares_age_with_window() {
    assert!(fresh_within(500, 500));
    assert!(!fresh_within(501, 500));
    assert!(fresh_within(0, 0));
    let entry = EmittedValueEntry::new(5);
    assert!(entry.is_fresh(u128::MAX));
    assert!(entry.is_fresh(60_000));
}
