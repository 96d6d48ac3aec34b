use rxr::observable::accumulate::ScanState;
use rxr::subscription::partition::split_off_marked;
use rxr::subscription::scheduling::unsubscribe_in_task;
use rxr::observable::buffers::{
    BufferSignal, BufferState, ConcatQueue, DebounceSlot, TakeLastBuffer, ZipEvent, ZipQueues,
    ZipRound, ZipStep,
};
use rxr::observable::fusing::{defused_flags, fused_flags, resolve_fuse};
use rxr::observable::gates::{
    ExhaustGate, FirstEnd, FirstState, SkipCounter, TakeAction, TakeCounter, TakeUntilGate,
    TakeWhileGate,
};

#[test]
fn skip_drops_first_n() {
    let mut s = SkipCounter::new(3);
    let decisions: Vec<bool> = (0..6).map(|_| s.on_next()).collect();
    assert_eq!(decisions, vec![false, false, false, true, true, true]);
}

#[test]
fn skip_zero_passes_everything() {
    let mut s = SkipCounter::new(0);
    assert!(s.on_next());
    assert!(s.on_next());
}

#[test]
fn take_passes_first_n_then_unsubscribes_once() {
    let mut t = TakeCounter::new(2, false);
    let actions: Vec<TakeAction> = (0..5).map(|_| t.on_next()).collect();
    assert_eq!(
        actions,
        vec![
            TakeAction::Forward,
            TakeAction::Forward,
            TakeAction::Unsubscribe,
            TakeAction::Ignore,
            TakeAction::Ignore
        ]
    );
}

#[test]
fn take_on_subject_never_unsubscribes() {
    let mut t = TakeCounter::new(1, true);
    assert_eq!(t.on_next(), TakeAction::Forward);
    assert_eq!(t.on_next(), TakeAction::Ignore);
    assert_eq!(t.on_next(), TakeAction::Ignore);
}

#[test]
fn take_zero_passes_nothing() {
    let mut t = TakeCounter::new(0, false);
    assert_eq!(t.on_next(), TakeAction::Unsubscribe);
    assert_eq!(t.on_next(), TakeAction::Ignore);
}

#[test]
fn take_while_stops_at_first_failure() {
    let mut g = TakeWhileGate::new(false);
    let values = [0u32, 1, 2, 7, 3, 4];
    let passed: Vec<u32> = values
        .iter()
        .copied()
        .filter(|v| g.on_next(*v < 6) == TakeAction::Forward)
        .collect();
    assert_eq!(passed, vec![0, 1, 2]);
}

#[test]
fn take_while_signals_once() {
    let mut g = TakeWhileGate::new(false);
    assert_eq!(g.on_next(true), TakeAction::Forward);
    assert_eq!(g.on_next(false), TakeAction::Unsubscribe);
    assert_eq!(g.on_next(false), TakeAction::Ignore);
    assert_eq!(g.on_next(true), TakeAction::Ignore);
}

#[test]
fn take_until_stops_after_notifier() {
    let mut g = TakeUntilGate::new(true, false);
    let r = g.on_next();
    assert!(r.forward && !r.complete && !r.unsubscribe_source && !r.release_notifier);
    assert!(g.on_source_end());
    let r = g.on_notifier();
    assert!(!r.forward && r.complete && r.unsubscribe_source && r.release_notifier);
    let r = g.on_next();
    assert!(!r.forward && !r.complete && !r.unsubscribe_source && r.release_notifier);
    let r = g.on_notifier();
    assert!(!r.complete && !r.unsubscribe_source);
    assert!(!g.on_source_end());
}

#[test]
fn take_until_keeps_notifier_when_asked() {
    let mut g = TakeUntilGate::new(false, false);
    let r = g.on_notifier();
    assert!(r.complete && r.unsubscribe_source && !r.release_notifier);
}

#[test]
fn take_until_on_subject_completes_without_unsubscribing() {
    let mut g = TakeUntilGate::new(false, true);
    let r = g.on_notifier();
    assert!(r.complete && !r.unsubscribe_source);
}

#[test]
fn first_passes_first_match() {
    let mut f: FirstState<u32> = FirstState::new(None);
    let values = [3u32, 9, 10, 2];
    let mut passed = Vec::new();
    for v in values {
        let matched = v > 8;
        if f.on_next(matched) {
            passed.push(v);
        }
    }
    assert_eq!(passed, vec![9]);
    assert_eq!(f.index(), 4);
    assert!(matches!(f.on_complete(), FirstEnd::Complete));
}

#[test]
fn first_falls_back_on_default() {
    let mut f = FirstState::new(Some(20u32));
    assert!(!f.on_next(false));
    assert!(matches!(f.on_complete(), FirstEnd::EmitDefault(20)));
    // The default is handed out once.
    assert!(matches!(f.on_complete(), FirstEnd::Empty));
}

#[test]
fn first_without_default_reports_empty() {
    let mut f: FirstState<u32> = FirstState::new(None);
    assert!(!f.on_next(false));
    assert!(matches!(f.on_complete(), FirstEnd::Empty));
}

#[test]
fn exhaust_runs_one_at_a_time() {
    let mut g = ExhaustGate::new();
    assert!(g.try_start());
    assert!(!g.try_start());
    g.finish();
    assert!(g.try_start());
}

#[test]
fn take_last_keeps_last_values() {
    let mut b = TakeLastBuffer::new(4);
    for v in 0..=100u32 {
        b.push(v);
    }
    assert_eq!(b.drain(), vec![97, 98, 99, 100]);
    assert_eq!(b.drain(), Vec::<u32>::new());
}

#[test]
fn take_last_zero_keeps_nothing() {
    let mut b = TakeLastBuffer::new(0);
    for v in 0..=20u32 {
        b.push(v);
    }
    assert_eq!(b.drain(), Vec::<u32>::new());
}

#[test]
fn take_last_keeps_all_when_fewer() {
    let mut b = TakeLastBuffer::new(5);
    for v in 0..=4u32 {
        b.push(v);
    }
    assert_eq!(b.drain(), vec![0, 1, 2, 3, 4]);
}

#[test]
fn buffer_batches_on_notifier() {
    let mut b = BufferState::new();
    b.source_next(1);
    b.source_next(2);
    assert_eq!(b.notifier_next(), Some(vec![1, 2]));
    b.source_next(3);
    assert_eq!(b.source_complete(), Some(vec![3]));
    // The operator is done: later values and notifications are dropped.
    b.source_next(4);
    assert!(b.notifier_next().is_none());
    assert!(b.source_complete().is_none());
}

#[test]
fn buffer_notifier_without_values_closes_an_empty_batch() {
    let mut b: BufferState<u32> = BufferState::new();
    assert_eq!(b.notifier_next(), Some(vec![]));
    b.source_next(1);
    assert_eq!(b.notifier_next(), Some(vec![1]));
    assert_eq!(b.source_complete(), Some(vec![]));
}

#[test]
fn buffer_notifier_completion_is_passed_once() {
    let mut b = BufferState::new();
    assert!(b.notifier_complete());
    assert!(!b.notifier_complete());
    b.source_next(7);
    assert_eq!(b.source_complete(), Some(vec![7]));
    assert!(b.source_complete().is_none());
}

#[test]
fn buffer_drops_after_error() {
    let mut b = BufferState::new();
    b.source_next(1);
    b.source_error();
    b.source_next(2);
    assert!(b.notifier_next().is_none());
    assert!(b.source_complete().is_none());
    let _ = BufferSignal::Idle;
}

#[test]
fn debounce_map_ignores_stale_durations() {
    let mut d = DebounceSlot::new();
    let first = d.on_value("a");
    let second = d.on_value("b");
    assert_eq!(first, 1);
    assert_eq!(second, 2);
    // The duration scheduled for "a" fires late: nothing is emitted.
    assert_eq!(d.on_fire(first), None);
    assert_eq!(d.on_fire(second), Some("b"));
    assert_eq!(d.on_fire(second), None);
}

#[test]
fn debounce_emits_pending_on_complete() {
    let mut d = DebounceSlot::new();
    d.on_value(5u32);
    d.on_value(6u32);
    assert_eq!(d.take_pending(), Some(6));
    assert_eq!(d.take_pending(), None);
}

#[test]
fn concat_starts_inners_in_order() {
    let mut q = ConcatQueue::new();
    assert_eq!(q.on_inner('a'), Some('a'));
    assert_eq!(q.on_inner('b'), None);
    assert_eq!(q.on_inner('c'), None);
    assert_eq!(q.on_inner_complete(), Some('b'));
    assert_eq!(q.on_inner_complete(), Some('c'));
    assert_eq!(q.on_inner_complete(), None);
    // Idle again: the next inner starts right away.
    assert_eq!(q.on_inner('d'), Some('d'));
}

#[test]
fn zip_queues_are_fifo_per_input() {
    let mut z: ZipQueues<u32, String> = ZipQueues::new(2);
    assert_eq!(z.len(), 2);
    z.push(0, ZipEvent::Value(1));
    z.push(0, ZipEvent::Value(2));
    z.push(1, ZipEvent::Complete);
    assert!(matches!(z.pop(0), Some(ZipEvent::Value(1))));
    assert!(matches!(z.pop(0), Some(ZipEvent::Value(2))));
    assert!(z.pop(0).is_none());
    assert!(matches!(z.pop(1), Some(ZipEvent::Complete)));
    z.push(1, ZipEvent::Error("boom".to_string()));
    assert!(matches!(z.pop(1), Some(ZipEvent::Error(_))));
}

#[test]
fn fuse_resolution() {
    // A defused subscriber imposes its flags.
    assert_eq!(resolve_fuse((true, false), (false, true)), ((false, true), (false, true)));
    // A fused subscriber fuses an unfused observable.
    assert_eq!(resolve_fuse((false, false), (true, false)), ((true, false), (true, false)));
    // Otherwise the observable's flags win.
    assert_eq!(resolve_fuse((true, false), (false, false)), ((true, false), (true, false)));
    assert_eq!(fused_flags(), (true, false));
    assert_eq!(defused_flags(), (false, true));
}

fn zip_emitted(step: ZipStep<u32, &'static str>) -> Option<Vec<u32>> {
    match step {
        ZipStep::Emit(v) => Some(v),
        _ => None,
    }
}

#[test]
fn zip_round_collects_one_value_per_input() {
    let mut step = ZipRound::<u32>::start::<&'static str>(1, 2);
    let mut events = vec![None, Some(ZipEvent::Value(10)), None, Some(ZipEvent::Value(20))];
    events.reverse();
    let mut reads = Vec::new();
    while let ZipStep::Collecting(round) = step {
        reads.push(round.next_input());
        step = round.step(events.pop().unwrap());
    }
    assert_eq!(reads, vec![0, 0, 1, 1]);
    assert_eq!(zip_emitted(step), Some(vec![1, 10, 20]));
}

#[test]
fn zip_round_without_inputs_emits_at_once() {
    let step = ZipRound::<u32>::start::<&'static str>(7, 0);
    assert_eq!(zip_emitted(step), Some(vec![7]));
}

#[test]
fn zip_round_stops_on_completion_and_fails_on_error() {
    let step = match ZipRound::<u32>::start::<&'static str>(1, 2) {
        ZipStep::Collecting(round) => round.step(Some(ZipEvent::<u32, &'static str>::Complete)),
        _ => panic!("round should be collecting"),
    };
    assert!(matches!(step, ZipStep::Stop));
    let step = match ZipRound::<u32>::start::<&'static str>(1, 2) {
        ZipStep::Collecting(round) => match round.step(Some(ZipEvent::<u32, &'static str>::Value(5))) {
            ZipStep::Collecting(round) => round.step(Some(ZipEvent::Error("boom"))),
            _ => panic!("round should be collecting"),
        },
        _ => panic!("round should be collecting"),
    };
    assert!(matches!(step, ZipStep::Fail("boom")));
}

#[test]
fn scan_starts_from_seed_or_first_value() {
    let mut seeded = ScanState::new(Some(10u32));
    let emitted: Vec<u32> = [1u32, 2, 3].iter().map(|v| seeded.step(*v, |a, b| a + b, |v| v)).collect();
    assert_eq!(emitted, vec![11, 13, 16]);
    let mut unseeded = ScanState::new(None);
    let emitted: Vec<u32> = [1u32, 2, 3].iter().map(|v| unseeded.step(*v, |a, b| a * 10 + b, |v| v)).collect();
    assert_eq!(emitted, vec![1, 12, 123]);
}

#[test]
fn split_off_marked_keeps_order_in_both_parts() {
    let mut items = vec!['a', 'b', 'c', 'd', 'e'];
    let moved = split_off_marked(&mut items, &vec![true, false, true, true, false]);
    assert_eq!(moved, vec!['a', 'c', 'd']);
    assert_eq!(items, vec!['b', 'e']);
}

#[test]
fn unsubscription_runs_in_a_task_only_off_current_thread_runtimes() {
    assert!(unsubscribe_in_task(true, false));
    assert!(!unsubscribe_in_task(true, true));
    assert!(!unsubscribe_in_task(false, false));
    assert!(!unsubscribe_in_task(false, true));
}
