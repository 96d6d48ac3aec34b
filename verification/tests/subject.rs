use std::error::Error;
use std::sync::{Arc, Mutex};

use rxr::subjects::{Multicast, Subject};
use rxr::subscribe::Subscriber;
use rxr::Observer;

type Fault = Arc<dyn Error + Send + Sync>;

#[derive(Debug)]
pub struct CustomError;

impl std::fmt::Display for CustomError {
    fn fmt(&self, f: &mut std::fmt::Formatter) -> std::fmt::Result {
        f.write_str("Custom error occurred")
    }
}

impl Error for CustomError {}

type Register = Arc<Mutex<Vec<i32>>>;

fn register_emissions_subscriber() -> (
    Vec<Box<dyn FnOnce() -> Subscriber<i32, Fault>>>,
    Register,
    Register,
    Register,
) {
    let nexts: Register = Arc::new(Mutex::new(Vec::with_capacity(5)));
    let completes: Register = Arc::new(Mutex::new(Vec::with_capacity(5)));
    let errors: Register = Arc::new(Mutex::new(Vec::with_capacity(5)));

    let mut make_subscriber: Vec<Box<dyn FnOnce() -> Subscriber<i32, Fault>>> = Vec::new();
    for _ in 0..10 {
        let nexts_c = Arc::clone(&nexts);
        let completes_c = Arc::clone(&completes);
        let errors_c = Arc::clone(&errors);
        make_subscriber.push(Box::new(move || {
            Subscriber::new(
                move |n| {
                    // Track next() calls.
                    nexts_c.lock().unwrap().push(n);
                },
                move |_: Fault| {
                    // Track error() calls.
                    errors_c.lock().unwrap().push(1);
                },
                move || {
                    // Track complete() calls.
                    completes_c.lock().unwrap().push(1);
                },
            )
        }));
    }
    (make_subscriber, nexts, completes, errors)
}

#[test]
fn subject_emit_than_complete() {
    let (mut make_subscriber, nexts, completes, errors) = register_emissions_subscriber();

    let x = make_subscriber.pop().unwrap()();
    let (mut stx, mut srx) = Subject::<i32, Fault>::emitter_receiver();

    // Emitting a value, but there are currently no registered subscribers.
    stx.next(1);

    assert_eq!(srx.len(), 0);
    assert_eq!(nexts.lock().unwrap().len(), 0);
    assert_eq!(completes.lock().unwrap().len(), 0);
    assert_eq!(errors.lock().unwrap().len(), 0);

    // Register subscriber.
    srx.subscribe(x); // 1st

    // Emissions are not stored so nothing is emitted after subscribing.
    assert_eq!(srx.len(), 1);
    assert_eq!(nexts.lock().unwrap().len(), 0);
    assert_eq!(completes.lock().unwrap().len(), 0);
    assert_eq!(errors.lock().unwrap().len(), 0);

    // Emitting a single value to a single registered subscriber.
    stx.next(2);

    assert_eq!(srx.len(), 1);
    assert_eq!(nexts.lock().unwrap().len(), 1);
    assert_eq!(completes.lock().unwrap().len(), 0);
    assert_eq!(errors.lock().unwrap().len(), 0);

    // Emitting two additional values to the same registered subscriber.
    stx.next(3);
    stx.next(4);

    assert_eq!(srx.len(), 1);
    assert_eq!(nexts.lock().unwrap().len(), 3);
    assert_eq!(completes.lock().unwrap().len(), 0);
    assert_eq!(errors.lock().unwrap().len(), 0);

    // Register 2 additional subscribers.
    let y = make_subscriber.pop().unwrap()();
    let z = make_subscriber.pop().unwrap()();
    srx.subscribe(y); // 2nd
    srx.subscribe(z); // 3rd

    assert_eq!(srx.len(), 3);
    assert_eq!(nexts.lock().unwrap().len(), 3);
    assert_eq!(completes.lock().unwrap().len(), 0);
    assert_eq!(errors.lock().unwrap().len(), 0);

    // Emitting two more times to each of the 3 registered subscribers.
    stx.next(5);
    stx.next(6);

    assert_eq!(srx.len(), 3);
    assert_eq!(nexts.lock().unwrap().len(), 9);
    assert_eq!(completes.lock().unwrap().len(), 0);
    assert_eq!(errors.lock().unwrap().len(), 0);

    // Complete Subject.
    stx.complete();

    assert_eq!(srx.len(), 0);
    assert_eq!(nexts.lock().unwrap().len(), 9);
    assert_eq!(completes.lock().unwrap().len(), 3);
    assert_eq!(errors.lock().unwrap().len(), 0);

    // Register another subscriber and emit some values after completion.
    let z = make_subscriber.pop().unwrap()();
    srx.subscribe(z); // 4th
    stx.next(7);
    stx.next(8);
    stx.next(9);

    // Subject stops emitting values after completion.
    assert_eq!(srx.len(), 0);
    assert_eq!(nexts.lock().unwrap().len(), 9);
    assert_eq!(completes.lock().unwrap().len(), 4);
    assert_eq!(errors.lock().unwrap().len(), 0);
}

#[test]
fn subject_emit_than_error() {
    let (mut make_subscriber, nexts, completes, errors) = register_emissions_subscriber();

    let x = make_subscriber.pop().unwrap()();
    let y = make_subscriber.pop().unwrap()();
    let z = make_subscriber.pop().unwrap()();

    let (mut stx, mut srx) = Subject::<i32, Fault>::emitter_receiver();

    // Register some subscribers.
    srx.subscribe(x); // 1st
    srx.subscribe(y); // 2nd
    srx.subscribe(z); // 3rd

    // Emit values.
    stx.next(1);
    stx.next(2);
    stx.next(3);

    assert_eq!(srx.len(), 3);
    assert_eq!(nexts.lock().unwrap().len(), 9);
    assert_eq!(completes.lock().unwrap().len(), 0);
    assert_eq!(errors.lock().unwrap().len(), 0);

    // Triggering an error on a Subject.
    stx.error(Arc::new(CustomError));

    assert_eq!(srx.len(), 0);
    assert_eq!(nexts.lock().unwrap().len(), 9);
    assert_eq!(completes.lock().unwrap().len(), 0);
    assert_eq!(errors.lock().unwrap().len(), 3);

    // After encountering an error, registering a new subscriber and emitting values.
    let z = make_subscriber.pop().unwrap()();
    srx.subscribe(z); // 4th
    stx.next(4);
    stx.next(5);
    stx.next(6);

    // Subject halts value emissions upon encountering an error.
    assert_eq!(srx.len(), 0);
    assert_eq!(nexts.lock().unwrap().len(), 9);
    assert_eq!(completes.lock().unwrap().len(), 0);
    assert_eq!(errors.lock().unwrap().len(), 4);
}

fn counting(seen: &Arc<Mutex<Vec<i32>>>) -> Subscriber<i32, Fault> {
    let s = Arc::clone(seen);
    Subscriber::on_next(move |v| s.lock().unwrap().push(v))
}

#[test]
fn observer_count_follows_the_history_of_calls() {
    let seen = Arc::new(Mutex::new(Vec::new()));
    let mut state: Subject<i32, Fault> = Subject::new();
    assert!(state.subscribe_keyed(1, counting(&seen)));
    assert!(state.subscribe_keyed(2, counting(&seen)));
    assert!(state.subscribe_keyed(3, counting(&seen)));
    assert_eq!(state.observer_count(), 3);
    state.remove_observer(2);
    assert_eq!(state.observer_count(), 2);
    state.emit_next(5);
    assert_eq!(*seen.lock().unwrap(), vec![5, 5]);
    state.emit_complete();
    assert_eq!(state.observer_count(), 0);
    assert!(!state.subscribe_keyed(4, counting(&seen)));
    assert_eq!(state.observer_count(), 0);
}

#[test]
fn closing_lets_every_observer_go_for_good() {
    let seen = Arc::new(Mutex::new(Vec::new()));
    let mut state: Subject<i32, Fault> = Subject::new();
    assert!(state.subscribe_keyed(1, counting(&seen)));
    state.close();
    assert_eq!(state.observer_count(), 0);
    assert!(!state.subscribe_keyed(2, counting(&seen)));
    state.emit_next(1);
    assert!(seen.lock().unwrap().is_empty());
}
