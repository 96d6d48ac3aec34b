//! The state kept by the buffering operators: `take_last`, `buffer`,
//! `debounce` / `debounce_map`, `concat_map` and `zip`.
use std::collections::VecDeque;
use vstd::prelude::*;

verus! {

// ---------------------------------------------------------------- take_last

/// The last `n` elements of `s` (all of them when there are fewer).
pub open spec fn last_n<T>(s: Seq<T>, n: nat) -> Seq<T> {
    if s.len() > n {
        s.skip(s.len() - n)
    } else {
        s
    }
}

/// Law: keeping the last `n` values, value by value, keeps the last `n`
/// values of the whole sequence.
pub proof fn law_last_n_incremental<T>(s: Seq<T>, v: T, n: nat)
    ensures
        last_n(last_n(s, n).push(v), n) == last_n(s.push(v), n),
{
    let t = last_n(s, n);
    if s.len() > n {
        assert(last_n(t.push(v), n) =~= last_n(s.push(v), n));
    }
}

/// `take_last(count)`: keeps the last `count` source values and hands them out
/// when the source completes.
pub struct TakeLastBuffer<T> {
    count: usize,
    buf: VecDeque<T>,
}

impl<T> TakeLastBuffer<T> {
    pub closed spec fn capacity(&self) -> nat {
        self.count as nat
    }

    /// The values kept, oldest first.
    pub closed spec fn kept(&self) -> Seq<T> {
        self.buf@
    }

    /// An empty buffer keeping at most `count` values.
    pub fn new(count: usize) -> (b: Self)
        ensures
            b.capacity() == count,
            b.kept() == Seq::<T>::empty(),
    {
        TakeLastBuffer { count, buf: VecDeque::new() }
    }

    /// Takes a source value, dropping the oldest kept one when full.
    pub fn push(&mut self, v: T)
        requires
            old(self).kept().len() <= old(self).capacity(),
        ensures
            final(self).capacity() == old(self).capacity(),
            final(self).kept() == last_n(old(self).kept().push(v), old(self).capacity()),
            final(self).kept().len() <= final(self).capacity(),
    {
        if self.count == 0 {
            proof {
                assert(last_n(old(self).kept().push(v), 0) =~= Seq::<T>::empty());
            }
            return;
        }
        let ghost before = self.buf@;
        if self.buf.len() == self.count {
            self.buf.pop_front();
        }
        self.buf.push_back(v);
        proof {
            if before.len() == self.count {
                assert(self.buf@ =~= last_n(before.push(v), self.count as nat));
            } else {
                assert(self.buf@ =~= last_n(before.push(v), self.count as nat));
            }
        }
    }

    /// Hands out the kept values, oldest first, and empties the buffer.
    pub fn drain(&mut self) -> (r: Vec<T>)
        ensures
            r@ == old(self).kept(),
            final(self).kept() == Seq::<T>::empty(),
            final(self).capacity() == old(self).capacity(),
    {
        let mut out: Vec<T> = Vec::new();
        let ghost all = self.buf@;
        while self.buf.len() > 0
            invariant
                out@ + self.buf@ == all,
                self.count == old(self).count,
            decreases self.buf@.len(),
        {
            let ghost before = self.buf@;
            match self.buf.pop_front() {
                Some(v) => {
                    out.push(v);
                    proof {
                        assert(out@ + self.buf@ =~= all);
                    }
                },
                None => {},
            }
        }
        proof {
            assert(out@ =~= all);
        }
        out
    }
}

// ---------------------------------------------------------------- buffer

/// Where the `buffer` operator stands.
#[derive(Clone, Copy, Debug, PartialEq, Eq, Structural)]
pub enum BufferSignal {
    /// Collecting values; each emission of the notifier closes a batch.
    Idle,
    /// The notifier completed (its completion was passed on): values are
    /// still collected until the source ends.
    Complete,
    /// Finished: values are dropped.
    Done,
}

/// `buffer(closing_notifier)`: collects source values into batches, each closed
/// by an emission of the notifier; the source's completion closes the last one.
#[verifier::reject_recursive_types(T)]
pub struct BufferState<T> {
    signal: BufferSignal,
    buf: Vec<T>,
    pushed: Ghost<Seq<T>>,
    flushed: Ghost<Seq<T>>,
}

/// The `buffer` operator's state as the rules see it: `pushed` lists every
/// source value offered, `flushed` the values handed out in batches so far.
pub ghost struct BufferView<T> {
    pub signal: BufferSignal,
    pub buf: Seq<T>,
    pub pushed: Seq<T>,
    pub flushed: Seq<T>,
}

impl<T> BufferView<T> {
    /// Every value handed out or collected was offered, in the same order, and
    /// until the operator is done none is lost.
    pub open spec fn accounted(self) -> bool {
        &&& (self.flushed + self.buf).len() <= self.pushed.len()
        &&& (self.flushed + self.buf) == self.pushed.take((self.flushed + self.buf).len() as int)
        &&& self.signal != BufferSignal::Done ==> self.flushed + self.buf == self.pushed
    }
}

impl<T> BufferState<T> {
    pub closed spec fn view(&self) -> BufferView<T> {
        BufferView {
            signal: self.signal,
            buf: self.buf@,
            pushed: self.pushed@,
            flushed: self.flushed@,
        }
    }

    /// Collecting, with nothing collected.
    pub fn new() -> (s: Self)
        ensures
            s.view().signal == BufferSignal::Idle,
            s.view().buf.len() == 0,
            s.view().pushed.len() == 0,
            s.view().flushed.len() == 0,
            s.view().accounted(),
    {
        let s = BufferState {
            signal: BufferSignal::Idle,
            buf: Vec::new(),
            pushed: Ghost(Seq::empty()),
            flushed: Ghost(Seq::empty()),
        };
        proof {
            assert(s.flushed@ + s.buf@ =~= Seq::<T>::empty());
            assert(s.pushed@.take(0) =~= Seq::<T>::empty());
        }
        s
    }

    fn flush(&mut self) -> (batch: Vec<T>)
        requires
            old(self).view().accounted(),
        ensures
            batch@ == old(self).view().buf,
            final(self).view().buf.len() == 0,
            final(self).view().flushed == old(self).view().flushed + old(self).view().buf,
            final(self).view().pushed == old(self).view().pushed,
            final(self).view().signal == old(self).view().signal,
            final(self).view().accounted(),
    {
        proof {
            self.flushed@ = self.flushed@ + self.buf@;
        }
        let mut batch: Vec<T> = Vec::new();
        std::mem::swap(&mut batch, &mut self.buf);
        proof {
            assert(self.flushed@ + self.buf@ =~= old(self).view().flushed + old(self).view().buf);
        }
        batch
    }

    /// The notifier emitted: unless the operator is done, the values collected
    /// so far go out as one batch (possibly empty) and collecting starts anew.
    pub fn notifier_next(&mut self) -> (batch: Option<Vec<T>>)
        requires
            old(self).view().accounted(),
        ensures
            final(self).view().accounted(),
            old(self).view().signal == BufferSignal::Done ==> batch is None && final(self).view()
                == old(self).view(),
            old(self).view().signal != BufferSignal::Done ==> {
                &&& batch is Some
                &&& batch->0@ == old(self).view().buf
                &&& final(self).view() == (BufferView {
                    buf: Seq::empty(),
                    flushed: old(self).view().flushed + old(self).view().buf,
                    ..old(self).view()
                })
            },
    {
        if self.signal == BufferSignal::Done {
            return None;
        }
        let batch = self.flush();
        proof {
            assert(self.buf@ =~= Seq::<T>::empty());
        }
        Some(batch)
    }

    /// The notifier failed: the operator is done (the error is passed on).
    pub fn notifier_error(&mut self)
        requires
            old(self).view().accounted(),
        ensures
            final(self).view().accounted(),
            final(self).view() == (BufferView { signal: BufferSignal::Done, ..old(self).view() }),
    {
        self.signal = BufferSignal::Done;
    }

    /// The notifier completed: returns whether to pass the completion on,
    /// which happens unless the notifier completed before or the operator is
    /// done.
    pub fn notifier_complete(&mut self) -> (pass_on: bool)
        requires
            old(self).view().accounted(),
        ensures
            final(self).view().accounted(),
            pass_on == (old(self).view().signal == BufferSignal::Idle),
            final(self).view() == if pass_on {
                BufferView { signal: BufferSignal::Complete, ..old(self).view() }
            } else {
                old(self).view()
            },
    {
        if self.signal == BufferSignal::Idle {
            self.signal = BufferSignal::Complete;
            true
        } else {
            false
        }
    }

    /// Takes a source value: collects it, unless the operator is done.
    pub fn source_next(&mut self, v: T)
        requires
            old(self).view().accounted(),
        ensures
            final(self).view().accounted(),
            old(self).view().signal == BufferSignal::Done ==> final(self).view() == old(self).view(),
            old(self).view().signal != BufferSignal::Done ==> final(self).view() == (BufferView {
                buf: old(self).view().buf.push(v),
                pushed: old(self).view().pushed.push(v),
                ..old(self).view()
            }),
    {
        if self.signal == BufferSignal::Done {
            return;
        }
        proof {
            self.pushed@ = self.pushed@.push(v);
        }
        self.buf.push(v);
        proof {
            assert(old(self).view().flushed + self.buf@ =~= self.pushed@);
            assert(self.pushed@.take(self.pushed@.len() as int) =~= self.pushed@);
        }
    }

    /// The source failed: the operator is done; collected values are dropped
    /// (the error is passed on).
    pub fn source_error(&mut self)
        requires
            old(self).view().accounted(),
        ensures
            final(self).view().accounted(),
            final(self).view() == (BufferView { signal: BufferSignal::Done, ..old(self).view() }),
    {
        self.signal = BufferSignal::Done;
    }

    /// The source completed: unless done, returns the remaining values as the
    /// last batch (to pass on before the completion) and the operator is done.
    pub fn source_complete(&mut self) -> (batch: Option<Vec<T>>)
        requires
            old(self).view().accounted(),
        ensures
            final(self).view().accounted(),
            old(self).view().signal == BufferSignal::Done ==> batch is None && final(self).view()
                == old(self).view(),
            old(self).view().signal != BufferSignal::Done ==> {
                &&& batch is Some
                &&& batch->0@ == old(self).view().buf
                &&& final(self).view() == (BufferView {
                    signal: BufferSignal::Done,
                    buf: Seq::empty(),
                    flushed: old(self).view().flushed + old(self).view().buf,
                    ..old(self).view()
                })
            },
    {
        if self.signal == BufferSignal::Done {
            return None;
        }
        let batch = self.flush();
        self.signal = BufferSignal::Done;
        proof {
            assert(self.buf@ =~= Seq::<T>::empty());
        }
        Some(batch)
    }
}

// ---------------------------------------------------------------- debounce

/// The pending value of `debounce` / `debounce_map`, tagged with the number of
/// the source value it came from.
pub struct DebounceSlot<T> {
    last: Option<(T, u64)>,
    counter: u64,
}

impl<T> DebounceSlot<T> {
    /// The pending value and its tag.
    pub closed spec fn pending(&self) -> Option<(T, u64)> {
        self.last
    }

    /// The tag of the latest source value.
    pub closed spec fn latest(&self) -> u64 {
        self.counter
    }

    /// Nothing pending.
    pub fn new() -> (s: Self)
        ensures
            s.pending() is None,
            s.latest() == 0,
    {
        DebounceSlot { last: None, counter: 0 }
    }

    /// A new source value replaces the pending one; returns its tag (tags
    /// count source values, wrapping around).
    pub fn on_value(&mut self, v: T) -> (id: u64)
        ensures
            id == (if old(self).latest() == u64::MAX {
                0
            } else {
                old(self).latest() + 1
            }),
            final(self).latest() == id,
            final(self).pending() == Some((v, id)),
    {
        self.counter = self.counter.wrapping_add(1);
        let id = self.counter;
        self.last = Some((v, id));
        id
    }

    /// The duration scheduled for the value tagged `id` elapsed: hands out the
    /// pending value, unless it came from a later source value (the duration
    /// is stale) or there is none.
    pub fn on_fire(&mut self, id: u64) -> (r: Option<T>)
        ensures
            final(self).latest() == old(self).latest(),
            match old(self).pending() {
                None => r is None && final(self).pending() is None,
                Some((v, tag)) => if tag > id {
                    r is None && final(self).pending() == old(self).pending()
                } else {
                    r == Some(v) && final(self).pending() is None
                },
            },
    {
        let stale = match &self.last {
            None => true,
            Some((_, tag)) => *tag > id,
        };
        if stale {
            return None;
        }
        match self.last.take() {
            Some((v, _)) => Some(v),
            None => None,
        }
    }

    /// Hands out the pending value, if any (on completion, or when the
    /// debounce time elapses).
    pub fn take_pending(&mut self) -> (r: Option<T>)
        ensures
            final(self).latest() == old(self).latest(),
            final(self).pending() is None,
            r == match old(self).pending() {
                Some((v, _)) => Some(v),
                None => None::<T>,
            },
    {
        match self.last.take() {
            Some((v, _)) => Some(v),
            None => None,
        }
    }
}

// ---------------------------------------------------------------- concat_map

/// `concat_map`: runs inner observables one at a time, in arrival order.
#[verifier::reject_recursive_types(X)]
pub struct ConcatQueue<X> {
    active: bool,
    pending: VecDeque<X>,
    arrived: Ghost<Seq<X>>,
    started: Ghost<Seq<X>>,
}

/// The queue as the rules see it: `arrived` lists the inner observables in
/// arrival order, `started` those started so far, in order.
pub ghost struct ConcatView<X> {
    pub active: bool,
    pub pending: Seq<X>,
    pub arrived: Seq<X>,
    pub started: Seq<X>,
}

impl<X> ConcatView<X> {
    /// Inner observables start in arrival order, none is lost, and when none
    /// runs none waits.
    pub open spec fn fifo(self) -> bool {
        &&& self.started + self.pending == self.arrived
        &&& !self.active ==> self.pending.len() == 0
    }
}

impl<X> ConcatQueue<X> {
    pub closed spec fn view(&self) -> ConcatView<X> {
        ConcatView {
            active: self.active,
            pending: self.pending@,
            arrived: self.arrived@,
            started: self.started@,
        }
    }

    /// Nothing running, nothing waiting.
    pub fn new() -> (q: Self)
        ensures
            !q.view().active,
            q.view().pending.len() == 0,
            q.view().arrived.len() == 0,
            q.view().started.len() == 0,
            q.view().fifo(),
    {
        let q = ConcatQueue {
            active: false,
            pending: VecDeque::new(),
            arrived: Ghost(Seq::empty()),
            started: Ghost(Seq::empty()),
        };
        proof {
            assert(q.started@ + q.pending@ =~= q.arrived@);
        }
        q
    }

    /// A new inner observable arrives: returns it to start now if none runs;
    /// otherwise it waits.
    pub fn on_inner(&mut self, x: X) -> (start: Option<X>)
        requires
            old(self).view().fifo(),
        ensures
            final(self).view().fifo(),
            final(self).view().active,
            final(self).view().arrived == old(self).view().arrived.push(x),
            !old(self).view().active ==> start == Some(x) && final(self).view().started
                == old(self).view().started.push(x),
            old(self).view().active ==> start is None && final(self).view().pending
                == old(self).view().pending.push(x) && final(self).view().started
                == old(self).view().started,
    {
        proof {
            self.arrived@ = self.arrived@.push(x);
        }
        if !self.active {
            self.active = true;
            proof {
                self.started@ = self.started@.push(x);
                assert(self.started@ + self.pending@ =~= self.arrived@);
            }
            return Some(x);
        }
        self.pending.push_back(x);
        proof {
            assert(self.started@ + self.pending@ =~= self.arrived@);
        }
        None
    }

    /// The running inner observable completed: returns the next one to start,
    /// if one waits; otherwise none runs anymore.
    pub fn on_inner_complete(&mut self) -> (start: Option<X>)
        requires
            old(self).view().fifo(),
        ensures
            final(self).view().fifo(),
            final(self).view().arrived == old(self).view().arrived,
            old(self).view().pending.len() > 0 ==> {
                &&& start == Some(old(self).view().pending[0])
                &&& final(self).view().active
                &&& final(self).view().started == old(self).view().started.push(
                    old(self).view().pending[0],
                )
            },
            old(self).view().pending.len() == 0 ==> start is None && !final(self).view().active
                && final(self).view().started == old(self).view().started,
    {
        match self.pending.pop_front() {
            Some(x) => {
                proof {
                    self.started@ = self.started@.push(x);
                    assert(self.started@ + self.pending@ =~= self.arrived@);
                }
                Some(x)
            },
            None => {
                self.active = false;
                None
            },
        }
    }
}

// ---------------------------------------------------------------- zip

/// A notification from one of the zipped observables.
pub enum ZipEvent<T, E> {
    Value(T),
    Complete,
    Error(E),
}

/// `zip`: the notifications of each zipped observable not yet consumed, in
/// arrival order.
#[verifier::reject_recursive_types(T)]
#[verifier::reject_recursive_types(E)]
pub struct ZipQueues<T, E> {
    queues: Vec<VecDeque<ZipEvent<T, E>>>,
}

impl<T, E> ZipQueues<T, E> {
    pub closed spec fn view(&self) -> Seq<Seq<ZipEvent<T, E>>> {
        self.queues@.map_values(|q: VecDeque<ZipEvent<T, E>>| q@)
    }

    /// `n` empty queues, one per zipped observable.
    pub fn new(n: usize) -> (z: Self)
        ensures
            z.view().len() == n,
            forall|i: int| 0 <= i < n ==> (#[trigger] z.view()[i]).len() == 0,
    {
        let mut queues: Vec<VecDeque<ZipEvent<T, E>>> = Vec::new();
        let mut i: usize = 0;
        while i < n
            invariant
                0 <= i <= n,
                queues@.len() == i,
                forall|j: int| 0 <= j < i ==> (#[trigger] queues@[j])@.len() == 0,
            decreases n - i,
        {
            queues.push(VecDeque::new());
            i = i + 1;
        }
        ZipQueues { queues }
    }

    /// Number of zipped observables.
    pub fn len(&self) -> (r: usize)
        ensures
            r == self.view().len(),
    {
        self.queues.len()
    }

    /// Records a notification from observable `i`.
    pub fn push(&mut self, i: usize, ev: ZipEvent<T, E>)
        requires
            i < old(self).view().len(),
        ensures
            final(self).view() == old(self).view().update(i as int, old(self).view()[i as int].push(ev)),
    {
        self.queues[i].push_back(ev);
        proof {
            assert(self.view() =~= old(self).view().update(i as int, old(self).view()[i as int].push(ev)));
        }
    }

    /// Consumes the oldest notification from observable `i`, if there is one.
    pub fn pop(&mut self, i: usize) -> (r: Option<ZipEvent<T, E>>)
        requires
            i < old(self).view().len(),
        ensures
            old(self).view()[i as int].len() == 0 ==> r is None && final(self).view() == old(self).view(),
            old(self).view()[i as int].len() > 0 ==> r == Some(old(self).view()[i as int][0])
                && final(self).view() == old(self).view().update(
                i as int,
                old(self).view()[i as int].skip(1),
            ),
    {
        let r = self.queues[i].pop_front();
        proof {
            assert(self.view() =~= (if old(self).view()[i as int].len() == 0 {
                old(self).view()
            } else {
                old(self).view().update(i as int, old(self).view()[i as int].skip(1))
            }));
        }
        r
    }
}


/// Where a zip round stands, as a value: still collecting (the values so far,
/// the source's first), done with the values to emit, stopped because an input
/// completed, or failed with an input's error.
pub enum ZipOutcome<T, E> {
    Collecting(Seq<T>),
    Emit(Seq<T>),
    Stop,
    Fail(E),
}

/// One step of a zip round that has `collected` values and zips `inputs`
/// inputs, on what the next input's queue gave (`None`: nothing yet).
pub open spec fn zip_step<T, E>(collected: Seq<T>, inputs: nat, ev: Option<ZipEvent<T, E>>) -> ZipOutcome<T, E> {
    match ev {
        None => ZipOutcome::Collecting(collected),
        Some(ZipEvent::Value(v)) => if collected.len() == inputs {
            ZipOutcome::Emit(collected.push(v))
        } else {
            ZipOutcome::Collecting(collected.push(v))
        },
        Some(ZipEvent::Complete) => ZipOutcome::Stop,
        Some(ZipEvent::Error(e)) => ZipOutcome::Fail(e),
    }
}

/// A zip round run over `evs`, one event after the other, until it leaves
/// the collecting state.
pub open spec fn zip_run<T, E>(collected: Seq<T>, inputs: nat, evs: Seq<Option<ZipEvent<T, E>>>) -> ZipOutcome<T, E>
    decreases evs.len(),
{
    if evs.len() == 0 {
        if collected.len() == inputs + 1 {
            ZipOutcome::Emit(collected)
        } else {
            ZipOutcome::Collecting(collected)
        }
    } else {
        match zip_step(collected, inputs, evs[0]) {
            ZipOutcome::Collecting(c) => zip_run(c, inputs, evs.skip(1)),
            other => other,
        }
    }
}

/// The events of inputs that each gave one value, in input order.
pub open spec fn zip_values<T, E>(ws: Seq<T>) -> Seq<Option<ZipEvent<T, E>>> {
    ws.map_values(|w: T| Some(ZipEvent::<T, E>::Value(w)))
}

/// Law: a round started on a source value that then reads one value from
/// each input, in input order, emits the source value followed by those
/// values; empty reads in between change nothing.
pub proof fn law_zip_round_emits_in_order<T, E>(first: T, ws: Seq<T>)
    ensures
        zip_run(seq![first], ws.len(), zip_values::<T, E>(ws)) == ZipOutcome::<T, E>::Emit(seq![first] + ws),
{
    lemma_zip_run_values::<T, E>(seq![first], ws, ws.len());
}

proof fn lemma_zip_run_values<T, E>(collected: Seq<T>, ws: Seq<T>, inputs: nat)
    requires
        collected.len() >= 1,
        collected.len() + ws.len() == inputs + 1,
    ensures
        zip_run(collected, inputs, zip_values::<T, E>(ws)) == ZipOutcome::<T, E>::Emit(collected + ws),
    decreases ws.len(),
{
    let evs = zip_values::<T, E>(ws);
    if ws.len() == 0 {
        assert(collected + ws =~= collected);
    } else {
        assert(evs[0] == Some(ZipEvent::<T, E>::Value(ws[0])));
        assert(evs.skip(1) =~= zip_values::<T, E>(ws.skip(1)));
        lemma_zip_run_values::<T, E>(collected.push(ws[0]), ws.skip(1), inputs);
        assert(collected.push(ws[0]) + ws.skip(1) =~= collected + ws);
        if collected.len() == inputs {
            assert(ws.len() == 1);
            assert(zip_values::<T, E>(ws.skip(1)).len() == 0);
        }
    }
}

/// Law: an empty read leaves a collecting round as it was.
pub proof fn law_zip_wait_changes_nothing<T, E>(collected: Seq<T>, inputs: nat, evs: Seq<Option<ZipEvent<T, E>>>)
    requires
        collected.len() <= inputs,
    ensures
        zip_run(collected, inputs, seq![None].add(evs)) == zip_run(collected, inputs, evs),
{
    assert(seq![None].add(evs).skip(1) =~= evs);
    if evs.len() == 0 {
        assert(zip_run(collected, inputs, evs) == ZipOutcome::<T, E>::Collecting(collected));
    }
}

/// What a zip round does next, with the values to emit when it is done.
pub enum ZipStep<T, E> {
    /// Still collecting: read the next input of this round.
    Collecting(ZipRound<T>),
    /// Every input gave a value: emit them, the source's first.
    Emit(Vec<T>),
    /// An input completed before giving a value: stop zipping.
    Stop,
    /// An input failed: pass its error on and stop zipping.
    Fail(E),
}

/// `zip`: the values collected for one source value, one per input so far.
pub struct ZipRound<T> {
    values: Vec<T>,
    inputs: usize,
}

impl<T> ZipRound<T> {
    /// The values collected so far, the source's first.
    pub closed spec fn collected(&self) -> Seq<T> {
        self.values@
    }

    /// The number of zipped inputs.
    pub closed spec fn inputs(&self) -> nat {
        self.inputs as nat
    }

    /// Still waiting for a value of some input.
    pub closed spec fn wf(&self) -> bool {
        1 <= self.values@.len() <= self.inputs
    }
}

impl<T, E> ZipStep<T, E> {
    /// This step as a value.
    pub open spec fn outcome(&self) -> ZipOutcome<T, E> {
        match self {
            ZipStep::Collecting(r) => ZipOutcome::Collecting(r.collected()),
            ZipStep::Emit(v) => ZipOutcome::Emit(v@),
            ZipStep::Stop => ZipOutcome::Stop,
            ZipStep::Fail(e) => ZipOutcome::Fail(*e),
        }
    }

    /// A collecting step holds a round that still waits for an input.
    pub open spec fn wf(&self, inputs: nat) -> bool {
        self matches ZipStep::Collecting(r) ==> r.wf() && r.inputs() == inputs
    }
}

impl<T> ZipRound<T> {
    /// Starts a round on a value of the source, zipping `inputs` inputs: with
    /// none it is done at once.
    pub fn start<E>(first: T, inputs: usize) -> (r: ZipStep<T, E>)
        ensures
            r.wf(inputs as nat),
            r.outcome() == zip_run(seq![first], inputs as nat, Seq::<Option<ZipEvent<T, E>>>::empty()),
    {
        let mut values: Vec<T> = Vec::new();
        values.push(first);
        proof {
            assert(values@ =~= seq![first]);
        }
        if inputs == 0 {
            ZipStep::Emit(values)
        } else {
            ZipStep::Collecting(ZipRound { values, inputs })
        }
    }

    /// The input whose queue the round reads next.
    pub fn next_input(&self) -> (i: usize)
        requires
            self.wf(),
        ensures
            i == self.collected().len() - 1,
            i < self.inputs(),
    {
        self.values.len() - 1
    }

    /// Takes what the next input's queue gave (`None`: nothing yet).
    pub fn step<E>(self, ev: Option<ZipEvent<T, E>>) -> (r: ZipStep<T, E>)
        requires
            self.wf(),
        ensures
            r.wf(self.inputs()),
            r.outcome() == zip_step(self.collected(), self.inputs(), ev),
    {
        let mut round = self;
        match ev {
            None => ZipStep::Collecting(round),
            Some(ZipEvent::Value(v)) => {
                round.values.push(v);
                if round.values.len() - 1 == round.inputs {
                    ZipStep::Emit(round.values)
                } else {
                    ZipStep::Collecting(round)
                }
            },
            Some(ZipEvent::Complete) => ZipStep::Stop,
            Some(ZipEvent::Error(e)) => ZipStep::Fail(e),
        }
    }
}

} // verus!
