use std::sync::{Arc, Mutex};

use rxr::errors::{EmptyError, ObservableError};
use rxr::subjects::{
    xorshift, AsyncSubject, BehaviorSubject, BufSize, ReplaySubject, Subject,
};
use rxr::subscribe::Subscriber;
use rxr::{Fuse, Observer, TimestampedEmit, Unsubscribeable};

type Log = Arc<Mutex<Vec<String>>>;

fn logging_subscriber(log: &Log) -> Subscriber<i32, String> {
    let ln = Arc::clone(log);
    let le = Arc::clone(log);
    let lc = Arc::clone(log);
    Subscriber::new(
        move |v: i32| ln.lock().unwrap().push(format!("next {}", v)),
        move |e: String| le.lock().unwrap().push(format!("error {}", e)),
        move || lc.lock().unwrap().push("complete".to_string()),
    )
}

fn entries(log: &Log) -> Vec<String> {
    log.lock().unwrap().clone()
}

#[test]
fn error_is_final_for_a_subscriber() {
    let log: Log = Arc::new(Mutex::new(Vec::new()));
    let mut s = logging_subscriber(&log);
    s.next(1);
    s.error("boom".to_string());
    s.next(2);
    s.error("again".to_string());
    s.complete();
    assert_eq!(entries(&log), vec!["next 1", "error boom"]);
}

#[test]
fn take_wrapped_subscriber_gets_values_after_error() {
    let log: Log = Arc::new(Mutex::new(Vec::new()));
    let mut s = logging_subscriber(&log);
    s.set_take_wrapped(true);
    assert!(s.is_take_wrapped());
    s.error("boom".to_string());
    s.next(3);
    s.complete();
    assert_eq!(entries(&log), vec!["error boom", "next 3"]);
}

#[test]
fn unfused_subscriber_keeps_receiving_after_complete() {
    let log: Log = Arc::new(Mutex::new(Vec::new()));
    let mut s = logging_subscriber(&log);
    s.complete();
    s.next(1);
    s.complete();
    assert_eq!(entries(&log), vec!["complete", "next 1", "complete"]);
}

#[test]
fn fused_subscriber_ends_at_first_complete() {
    let log: Log = Arc::new(Mutex::new(Vec::new()));
    let mut s = logging_subscriber(&log);
    s.set_fused(true, false);
    assert!(s.is_fused());
    assert_eq!(s.get_fused(), (true, false));
    s.next(1);
    s.complete();
    s.next(2);
    s.complete();
    s.error("late".to_string());
    assert_eq!(entries(&log), vec!["next 1", "complete"]);
}

#[test]
fn defused_subscriber_is_not_fused() {
    let log: Log = Arc::new(Mutex::new(Vec::new()));
    let mut s = logging_subscriber(&log);
    s.set_fused(true, true);
    assert!(!s.is_fused());
}

#[test]
fn subscriber_without_callbacks_completes_silently_and_closes_on_error() {
    let log: Log = Arc::new(Mutex::new(Vec::new()));
    let ln = Arc::clone(&log);
    let lc = Arc::clone(&log);
    let mut s: Subscriber<i32, String> =
        Subscriber::on_next(move |v: i32| ln.lock().unwrap().push(format!("next {}", v)));
    s.complete();
    s.next(1);
    s.on_complete(move || lc.lock().unwrap().push("complete".to_string()));
    s.complete();
    s.error("closes".to_string());
    s.next(2);
    s.complete();
    assert_eq!(entries(&log), vec!["next 1", "complete"]);
}

#[test]
fn subject_subscription_unsubscribes_one_observer() {
    let log: Log = Arc::new(Mutex::new(Vec::new()));
    let (mut tx, mut rx) = Subject::<i32, String>::emitter_receiver();
    let first = rx.subscribe(logging_subscriber(&log));
    let _second = rx.subscribe(logging_subscriber(&log));
    assert!(first.is_registered());
    assert_eq!(rx.len(), 2);
    first.unsubscribe();
    assert_eq!(rx.len(), 1);
    tx.next(5);
    assert_eq!(entries(&log), vec!["next 5"]);
}

#[test]
fn closed_subject_neither_emits_nor_registers() {
    let log: Log = Arc::new(Mutex::new(Vec::new()));
    let (mut tx, mut rx) = Subject::<i32, String>::emitter_receiver();
    rx.subscribe(logging_subscriber(&log));
    rx.clone().unsubscribe();
    assert!(rx.is_empty());
    let late = rx.subscribe(logging_subscriber(&log));
    assert!(!late.is_registered());
    tx.next(1);
    tx.complete();
    assert!(entries(&log).is_empty());
}

#[test]
fn subject_error_reaches_late_subscribers() {
    let log: Log = Arc::new(Mutex::new(Vec::new()));
    let (mut tx, mut rx) = Subject::<i32, String>::emitter_receiver();
    tx.error("boom".to_string());
    tx.complete();
    rx.subscribe(logging_subscriber(&log));
    assert_eq!(entries(&log), vec!["error boom"]);
}

#[test]
fn behavior_subject_hands_out_current_value() {
    let log: Log = Arc::new(Mutex::new(Vec::new()));
    let (mut tx, mut rx) = BehaviorSubject::<i32, String>::emitter_receiver(9);
    rx.subscribe(logging_subscriber(&log));
    tx.next(10);
    rx.subscribe(logging_subscriber(&log));
    assert_eq!(entries(&log), vec!["next 9", "next 10", "next 10"]);
    assert_eq!(rx.len(), 2);
}

#[test]
fn async_subject_emits_last_value_on_complete() {
    let log: Log = Arc::new(Mutex::new(Vec::new()));
    let (mut tx, mut rx) = AsyncSubject::<i32, String>::emitter_receiver();
    rx.subscribe(logging_subscriber(&log));
    tx.next(1);
    tx.next(2);
    assert!(entries(&log).is_empty());
    tx.complete();
    rx.subscribe(logging_subscriber(&log));
    assert_eq!(entries(&log), vec!["next 2", "complete", "next 2", "complete"]);
}

#[test]
fn replay_subject_replays_last_n() {
    let log: Log = Arc::new(Mutex::new(Vec::new()));
    let (mut tx, mut rx) = ReplaySubject::<i32, String>::emitter_receiver(BufSize::Limited(2));
    for v in 1..=5 {
        tx.next(v);
    }
    rx.subscribe(logging_subscriber(&log));
    assert_eq!(entries(&log), vec!["next 4", "next 5"]);
}

#[test]
fn replay_subject_with_zero_buffer_replays_nothing() {
    let log: Log = Arc::new(Mutex::new(Vec::new()));
    let (mut tx, mut rx) = ReplaySubject::<i32, String>::emitter_receiver(BufSize::Limited(0));
    tx.next(1);
    tx.complete();
    rx.subscribe(logging_subscriber(&log));
    assert_eq!(entries(&log), vec!["complete"]);
}

#[test]
fn replay_subject_replays_before_error() {
    let log: Log = Arc::new(Mutex::new(Vec::new()));
    let (mut tx, mut rx) = ReplaySubject::<i32, String>::emitter_receiver(BufSize::Infinite);
    tx.next(1);
    tx.next(2);
    tx.error("boom".to_string());
    rx.subscribe(logging_subscriber(&log));
    assert_eq!(entries(&log), vec!["next 1", "next 2", "error boom"]);
}

#[test]
fn xorshift_steps() {
    assert_eq!(xorshift(1), 270369);
    assert_eq!(xorshift(0), 0);
    assert_eq!(xorshift(0xdead_beef), 951601406124215);
}

#[test]
fn timestamp_is_after_epoch() {
    let t = TimestampedEmit::new(7);
    assert_eq!(t.value, 7);
    assert!(t.timestamp > 0);
    assert!(!t.is_error());
    assert!(t.error_str().is_none());
    assert!(t.error_duration().is_none());
}

#[test]
fn clock_before_epoch_is_reported() {
    let before = std::time::UNIX_EPOCH - std::time::Duration::from_secs(5);
    let reading = before.duration_since(std::time::UNIX_EPOCH).map(|d| d.as_millis());
    let t = TimestampedEmit::from_reading("v", reading);
    assert!(t.is_error());
    assert_eq!(t.timestamp, 0);
    assert_eq!(t.error_duration(), Some(std::time::Duration::from_secs(5)));
    assert!(t.error_str().unwrap().contains("before the Unix epoch"));
}

#[test]
fn timestamp_is_the_reading_in_milliseconds() {
    let t = TimestampedEmit::from_reading(3, Ok(1_700_000_000_123));
    assert_eq!(t.value, 3);
    assert_eq!(t.timestamp, 1_700_000_000_123);
    assert!(!t.is_error());
    assert!(t.error_duration().is_none());
}

#[test]
fn observable_error_source_and_name() {
    let e: ObservableError<String> = ObservableError::InfoRoot { name: "source", source: "io".to_string() };
    assert_eq!(e.source(), Some(&"io".to_string()));
    assert!(e.is_named());
    let e: ObservableError<String> = ObservableError::NoInfo;
    assert_eq!(e.source(), None);
    assert!(!e.is_named());
    assert_eq!(EmptyError.message(), "no elements in sequence");
}

#[test]
fn observable_error_messages_name_the_observable() {
    let e: ObservableError<String> = ObservableError::InfoRoot { name: "source", source: "io".to_string() };
    assert_eq!(e.message(), "source observable emitted an error");
    let e: ObservableError<String> = ObservableError::Info("map".to_string());
    assert_eq!(e.message(), "map observable emitted an error");
    let e: ObservableError<String> = ObservableError::Root("io".to_string());
    assert_eq!(e.message(), "observable emitted an error");
    let e: ObservableError<String> = ObservableError::NoInfo;
    assert_eq!(e.message(), "observable emitted an error");
}

#[test]
fn error_closes_a_subscriber_without_error_callback() {
    let seen = Arc::new(Mutex::new(Vec::new()));
    let s2 = Arc::clone(&seen);
    let mut s: Subscriber<i32, String> = Subscriber::on_next(move |v| s2.lock().unwrap().push(v));
    s.next(1);
    s.error("failed".to_string());
    s.next(2);
    s.complete();
    assert_eq!(*seen.lock().unwrap(), vec![1]);
}

#[test]
fn fused_completion_closes_a_subscriber_without_completion_callback() {
    let seen = Arc::new(Mutex::new(Vec::new()));
    let s2 = Arc::clone(&seen);
    let mut s: Subscriber<i32, String> = Subscriber::on_next(move |v| s2.lock().unwrap().push(v));
    s.set_fused(true, false);
    s.next(1);
    s.complete();
    s.next(2);
    assert_eq!(*seen.lock().unwrap(), vec![1]);
}
