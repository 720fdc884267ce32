use vstd::prelude::*;

use std::collections::VecDeque;

use crate::error_model::{BatchResult, BoolResult, U64Result};
use crate::operation::{
    angle_add, angle_sub, batch_produces, batch_touches, Angle, BatchOperation, Operation,
};
use crate::time::Instant;

verus! {

/// Allocation state of one qubit. An active qubit carries the Z phase that
/// earlier RZ gates accumulated on it; it is folded into its later RXY gates.
#[derive(Debug, Clone, Copy, PartialEq, Eq, Structural)]
pub enum QubitStatus {
    Free,
    Active { phase: Angle },
}

/// One entry of the future table: whether the result has been written, and its value.
#[derive(Debug, Clone, Copy, PartialEq, Eq, Structural)]
pub struct Measurement {
    pub measured: bool,
    pub value: u64,
}

/// Why the scheduler refused a call.
#[derive(Debug, Clone, Copy, PartialEq, Eq, Structural)]
pub enum RuntimeError {
    /// The qubit id is not below the qubit count.
    QubitOutOfRange(u64),
    /// The qubit is not allocated.
    InactiveQubit(u64),
    /// No future with this id was created in this shot.
    ResultOutOfRange(u64),
    /// No queued batch produces this result any more.
    ResultNotFound(u64),
}

/// The abstract state of the scheduler.
pub struct RuntimeView {
    pub qubits: Seq<QubitStatus>,
    pub queue: Seq<BatchOperation>,
    /// How many leading batches of `queue` are eligible for dispatch.
    pub flush: nat,
    pub results: Seq<Measurement>,
    pub start: Instant,
}

/// The lazy batching scheduler: qubit allocation, a FIFO of batches with a
/// flush cursor, and the table of measurement futures.
pub struct SimpleRuntime {
    qubits: Vec<QubitStatus>,
    operation_queue: VecDeque<BatchOperation>,
    flush_size: usize,
    measurements: Vec<Measurement>,
    start: Instant,
}

impl View for SimpleRuntime {
    type V = RuntimeView;

    closed spec fn view(&self) -> RuntimeView {
        RuntimeView {
            qubits: self.qubits@,
            queue: self.operation_queue@,
            flush: self.flush_size as nat,
            results: self.measurements@,
            start: self.start,
        }
    }
}

/// The flush cursor never passes the end of the queue, and every qubit id fits in 64 bits.
pub open spec fn view_wf(v: RuntimeView) -> bool {
    v.flush <= v.queue.len() && v.qubits.len() <= u64::MAX
}

/// The index of the first free qubit at or after `i`, or -1.
pub open spec fn first_free(qubits: Seq<QubitStatus>, i: nat) -> int
    decreases qubits.len() - i,
{
    if i >= qubits.len() {
        -1
    } else if qubits[i as int] is Free {
        i as int
    } else {
        first_free(qubits, i + 1)
    }
}

/// `qalloc` on `v`: the new state and the id it returns.
pub open spec fn spec_qalloc(v: RuntimeView) -> (RuntimeView, u64) {
    let i = first_free(v.qubits, 0);
    if i < 0 {
        (v, u64::MAX)
    } else {
        (
            RuntimeView {
                qubits: v.qubits.update(i, QubitStatus::Active { phase: Angle(0) }),
                ..v
            },
            i as u64,
        )
    }
}

/// `qfree(q)` on `v`, for `q` below the qubit count.
pub open spec fn spec_qfree(v: RuntimeView, q: u64) -> RuntimeView {
    RuntimeView { qubits: v.qubits.update(q as int, QubitStatus::Free), ..v }
}

/// The phase accumulated on an active qubit.
pub open spec fn phase_of(s: QubitStatus) -> Angle {
    match s {
        QubitStatus::Active { phase } => phase,
        QubitStatus::Free => Angle(0),
    }
}

/// `rz_gate(q, theta)` on `v`, for an active qubit `q`: only its phase changes.
pub open spec fn spec_rz(v: RuntimeView, q: u64, theta: Angle) -> RuntimeView {
    RuntimeView {
        qubits: v.qubits.update(
            q as int,
            QubitStatus::Active { phase: angle_add(phase_of(v.qubits[q as int]), theta) },
        ),
        ..v
    }
}

/// `new` is `old` with one batch of the single operation `op` added at the tail.
pub open spec fn enqueued(old: RuntimeView, new: RuntimeView, op: Operation) -> bool {
    &&& new.queue.len() == old.queue.len() + 1
    &&& new.queue.subrange(0, old.queue.len() as int) == old.queue
    &&& new.queue.last().ops@ == seq![op]
    &&& new.queue.last().start == old.start
    &&& new.queue.last().metadata@.len() == 0
    &&& new.qubits == old.qubits
    &&& new.flush == old.flush
    &&& new.results == old.results
    &&& new.start == old.start
}

/// The highest index in `[lo, hi)` of a batch touching `qubits`, or -1.
pub open spec fn last_touch(queue: Seq<BatchOperation>, qubits: Seq<u64>, lo: nat, hi: nat) -> int
    decreases hi,
{
    if hi <= lo {
        -1
    } else if queue[hi - 1].touches(qubits) {
        hi - 1
    } else {
        last_touch(queue, qubits, lo, (hi - 1) as nat)
    }
}

/// The flush cursor after `local_barrier(qubits)` on `v`.
pub open spec fn local_barrier_flush(v: RuntimeView, qubits: Seq<u64>) -> nat {
    let l = last_touch(v.queue, qubits, v.flush, v.queue.len());
    if l >= 0 {
        (l + 1) as nat
    } else {
        v.flush
    }
}

/// The highest index below `hi` of a batch producing `result_id`, or -1.
pub open spec fn last_producer(queue: Seq<BatchOperation>, result_id: u64, hi: nat) -> int
    decreases hi,
{
    if hi == 0 {
        -1
    } else if queue[hi - 1].produces(result_id) {
        hi - 1
    } else {
        last_producer(queue, result_id, (hi - 1) as nat)
    }
}

/// The table after writing `writes` (pairs of future id and value) in order,
/// stopping at the first unknown id, which is returned.
pub open spec fn apply_writes(table: Seq<Measurement>, writes: Seq<(u64, u64)>) -> (
    Seq<Measurement>,
    Option<u64>,
)
    decreases writes.len(),
{
    if writes.len() == 0 {
        (table, None)
    } else {
        let (t, e) = apply_writes(table, writes.drop_last());
        if e is Some {
            (t, e)
        } else if writes.last().0 >= t.len() {
            (t, Some(writes.last().0))
        } else {
            (t.update(writes.last().0 as int, Measurement { measured: true, value: writes.last().1 }), None)
        }
    }
}

/// The writes a batch result asks for: its bit results (as 0 or 1), then its
/// integer results, each in reported order.
pub open spec fn batch_writes(b: BatchResult) -> Seq<(u64, u64)> {
    b.bool_results@.map_values(|x: BoolResult| (x.result_id, if x.value { 1u64 } else { 0u64 }))
        + b.u64_results@.map_values(|x: U64Result| (x.result_id, x.value))
}

/// The writes of several batch results, one after another.
pub open spec fn all_writes(rets: Seq<BatchResult>) -> Seq<(u64, u64)>
    decreases rets.len(),
{
    if rets.len() == 0 {
        Seq::empty()
    } else {
        all_writes(rets.drop_last()) + batch_writes(rets.last())
    }
}

pub proof fn lemma_apply_error_sticks(table: Seq<Measurement>, w: Seq<(u64, u64)>, n: nat)
    requires
        n <= w.len(),
        apply_writes(table, w.take(n as int)).1 is Some,
    ensures
        apply_writes(table, w) == apply_writes(table, w.take(n as int)),
    decreases w.len(),
{
    if w.len() == n {
        assert(w.take(n as int) =~= w);
    } else {
        assert(w.drop_last().take(n as int) =~= w.take(n as int));
        lemma_apply_error_sticks(table, w.drop_last(), n);
    }
}

pub proof fn lemma_apply_concat(table: Seq<Measurement>, w1: Seq<(u64, u64)>, w2: Seq<(u64, u64)>)
    requires
        apply_writes(table, w1).1 is None,
    ensures
        apply_writes(table, w1 + w2) == apply_writes(apply_writes(table, w1).0, w2),
    decreases w2.len(),
{
    if w2.len() == 0 {
        assert(w1 + w2 =~= w1);
    } else {
        assert((w1 + w2).drop_last() =~= w1 + w2.drop_last());
        lemma_apply_concat(table, w1, w2.drop_last());
    }
}

/// Writing never shortens the table nor unresolves a future.
pub proof fn lemma_apply_monotone(table: Seq<Measurement>, w: Seq<(u64, u64)>)
    ensures
        apply_writes(table, w).0.len() == table.len(),
        forall|i: int|
            0 <= i < table.len() && (#[trigger] table[i]).measured ==> apply_writes(
                table,
                w,
            ).0[i].measured,
    decreases w.len(),
{
    if w.len() > 0 {
        lemma_apply_monotone(table, w.drop_last());
    }
}

/// A write that went through leaves its future resolved.
pub proof fn lemma_apply_resolves(table: Seq<Measurement>, w: Seq<(u64, u64)>, x: (u64, u64))
    requires
        apply_writes(table, w).1 is None,
        w.contains(x),
    ensures
        x.0 < table.len(),
        apply_writes(table, w).0[x.0 as int].measured,
    decreases w.len(),
{
    lemma_apply_monotone(table, w);
    if w.last() == x {
        let (t, e) = apply_writes(table, w.drop_last());
        lemma_apply_monotone(table, w.drop_last());
    } else {
        let k = choose|k: int| 0 <= k < w.len() && w[k] == x;
        assert(w.drop_last()[k] == x);
        assert(w.drop_last().contains(x));
        lemma_apply_resolves(table, w.drop_last(), x);
    }
}

/// The state after handing every eligible batch of `v` on.
pub open spec fn drained(v: RuntimeView) -> RuntimeView {
    RuntimeView { queue: v.queue.subrange(v.flush as int, v.queue.len() as int), flush: 0, ..v }
}

/// The state of a fresh shot over `n` qubits.
pub open spec fn fresh(n: nat, start: Instant) -> RuntimeView {
    RuntimeView {
        qubits: Seq::new(n, |_i: int| QubitStatus::Free),
        queue: Seq::empty(),
        flush: 0,
        results: Seq::empty(),
        start,
    }
}

/// The outcome of `measure` (or, with `leaked`, `measure_leaked`) of `qubit_id` on `old`.
pub open spec fn measure_post(
    old: RuntimeView,
    new: RuntimeView,
    qubit_id: u64,
    r: Result<u64, RuntimeError>,
    leaked: bool,
) -> bool {
    if qubit_id >= old.qubits.len() {
        r == Err::<u64, _>(RuntimeError::QubitOutOfRange(qubit_id)) && new == old
    } else {
        let id = old.results.len() as u64;
        let op = if leaked {
            Operation::MeasureLeaked { qubit_id, result_id: id }
        } else {
            Operation::Measure { qubit_id, result_id: id }
        };
        &&& r == Ok::<_, RuntimeError>(id)
        &&& old.results.len() <= u64::MAX
        &&& enqueued(old, RuntimeView { results: old.results, ..new }, op)
        &&& new.results == old.results.push(Measurement { measured: false, value: 0 })
    }
}

/// The outcome of writing `value` into future `result_id` of `old`.
pub open spec fn set_post(
    old: RuntimeView,
    new: RuntimeView,
    result_id: u64,
    value: u64,
    r: Result<(), RuntimeError>,
) -> bool {
    if result_id >= old.results.len() {
        r == Err::<(), _>(RuntimeError::ResultOutOfRange(result_id)) && new == old
    } else {
        r is Ok && new == RuntimeView {
            results: old.results.update(result_id as int, Measurement { measured: true, value }),
            ..old
        }
    }
}

impl SimpleRuntime {
    pub open spec fn wf(&self) -> bool {
        view_wf(self@)
    }

    /// A scheduler over `n_qubits` free qubits, stamping its batches with `start`.
    pub fn new(n_qubits: u64, start: Instant) -> (r: Self)
        requires
            n_qubits <= usize::MAX,
        ensures
            r.wf(),
            r@ == fresh(n_qubits as nat, start),
    {
        let qubits = Self::all_free(n_qubits as usize);
        SimpleRuntime {
            qubits,
            operation_queue: VecDeque::new(),
            flush_size: 0,
            measurements: Vec::new(),
            start,
        }
    }

    fn all_free(n: usize) -> (r: Vec<QubitStatus>)
        ensures
            r@ == Seq::new(n as nat, |_i: int| QubitStatus::Free),
    {
        let mut v: Vec<QubitStatus> = Vec::new();
        let mut i: usize = 0;
        while i < n
            invariant
                i <= n,
                v@ == Seq::new(i as nat, |_i: int| QubitStatus::Free),
            decreases n - i,
        {
            v.push(QubitStatus::Free);
            i += 1;
        }
        v
    }

    /// The number of qubits this scheduler manages.
    pub fn n_qubits(&self) -> (r: u64)
        ensures
            r == self@.qubits.len(),
    {
        self.qubits.len() as u64
    }

    /// The number of batches eligible for dispatch.
    pub fn flush_size(&self) -> (r: usize)
        ensures
            r == self@.flush,
    {
        self.flush_size
    }

    /// The number of queued batches, eligible or not.
    pub fn queue_len(&self) -> (r: usize)
        ensures
            r == self@.queue.len(),
    {
        self.operation_queue.len()
    }

    /// The status of qubit `q`, if it exists.
    pub fn qubit_status(&self, q: u64) -> (r: Option<QubitStatus>)
        ensures
            q < self@.qubits.len() ==> r == Some(self@.qubits[q as int]),
            q >= self@.qubits.len() ==> r is None,
    {
        if q >= self.qubits.len() as u64 {
            None
        } else {
            Some(self.qubits[q as usize])
        }
    }

    /// Adds a batch holding the single operation `op` at the tail of the queue.
    pub fn push(&mut self, op: Operation)
        requires
            old(self).wf(),
        ensures
            final(self).wf(),
            enqueued(old(self)@, final(self)@, op),
    {
        let batch = BatchOperation::single(op, self.start);
        self.operation_queue.push_back(batch);
        assert(self@.queue.subrange(0, old(self)@.queue.len() as int) =~= old(self)@.queue);
    }

    fn clear_shot(&mut self)
        requires
            old(self).wf(),
        ensures
            final(self).wf(),
            final(self)@ == fresh(old(self)@.qubits.len(), old(self)@.start),
    {
        self.qubits = Self::all_free(self.qubits.len());
        self.operation_queue = VecDeque::new();
        self.flush_size = 0;
        self.measurements = Vec::new();
    }

    /// Starts a shot: every qubit free, no queued batch, no future.
    pub fn shot_start(&mut self, _shot_id: u64, _seed: u64)
        requires
            old(self).wf(),
        ensures
            final(self).wf(),
            final(self)@ == fresh(old(self)@.qubits.len(), old(self)@.start),
    {
        self.clear_shot();
    }

    /// Ends a shot: every qubit free, no queued batch, no future.
    pub fn shot_end(&mut self)
        requires
            old(self).wf(),
        ensures
            final(self).wf(),
            final(self)@ == fresh(old(self)@.qubits.len(), old(self)@.start),
    {
        self.clear_shot();
    }

    /// Releases all state; the scheduler then manages no qubit.
    pub fn exit(&mut self)
        requires
            old(self).wf(),
        ensures
            final(self).wf(),
            final(self)@ == fresh(0, old(self)@.start),
    {
        self.qubits = Vec::new();
        self.operation_queue = VecDeque::new();
        self.flush_size = 0;
        self.measurements = Vec::new();
        assert(self@.qubits =~= Seq::new(0, |_i: int| QubitStatus::Free));
    }

    /// Pops the head of the queue while the flush cursor is positive.
    pub fn get_next_operations(&mut self) -> (r: Option<BatchOperation>)
        requires
            old(self).wf(),
        ensures
            final(self).wf(),
            old(self)@.flush == 0 ==> r is None && final(self)@ == old(self)@,
            old(self)@.flush > 0 ==> r == Some(old(self)@.queue[0]) && final(self)@ == (
            RuntimeView {
                queue: old(self)@.queue.subrange(1, old(self)@.queue.len() as int),
                flush: (old(self)@.flush - 1) as nat,
                ..old(self)@
            }),
    {
        if self.flush_size == 0 {
            return None;
        }
        self.flush_size -= 1;
        self.operation_queue.pop_front()
    }

    /// Makes every queued batch eligible for dispatch.
    pub fn global_barrier(&mut self, _sleep_ns: u64)
        requires
            old(self).wf(),
        ensures
            final(self).wf(),
            final(self)@ == (RuntimeView { flush: old(self)@.queue.len(), ..old(self)@ }),
    {
        self.flush_size = self.operation_queue.len();
    }

    /// Makes eligible every batch up to the last one, past the flush cursor, that
    /// acts on one of `qubits`; batches after it stay speculative.
    pub fn local_barrier(&mut self, qubits: &[u64], _sleep_ns: u64)
        requires
            old(self).wf(),
        ensures
            final(self).wf(),
            final(self)@ == (RuntimeView {
                flush: local_barrier_flush(old(self)@, qubits@),
                ..old(self)@
            }),
            final(self)@.flush >= old(self)@.flush,
    {
        let ghost v = self@;
        let len = self.operation_queue.len();
        let mut i: usize = self.flush_size;
        let mut last: Option<usize> = None;
        while i < len
            invariant
                self@ == v,
                view_wf(v),
                len == v.queue.len(),
                v.flush <= i <= len,
                match last {
                    None => last_touch(v.queue, qubits@, v.flush, i as nat) == -1,
                    Some(l) => last_touch(v.queue, qubits@, v.flush, i as nat) == l && v.flush
                        <= l < i,
                },
            decreases len - i,
        {
            if batch_touches(&self.operation_queue[i], qubits) {
                last = Some(i);
            }
            i += 1;
        }
        if let Some(l) = last {
            self.flush_size = l + 1;
        }
    }

    /// Makes eligible the batch that produces `result_id`, and every batch before it.
    pub fn force_result(&mut self, result_id: u64) -> (r: Result<(), RuntimeError>)
        requires
            old(self).wf(),
        ensures
            final(self).wf(),
            result_id >= old(self)@.results.len() ==> r == Err::<(), _>(
                RuntimeError::ResultOutOfRange(result_id),
            ) && final(self)@ == old(self)@,
            result_id < old(self)@.results.len() && last_producer(
                old(self)@.queue,
                result_id,
                old(self)@.queue.len(),
            ) < 0 ==> r == Err::<(), _>(RuntimeError::ResultNotFound(result_id)) && final(self)@
                == old(self)@,
            result_id < old(self)@.results.len() && last_producer(
                old(self)@.queue,
                result_id,
                old(self)@.queue.len(),
            ) >= 0 ==> r is Ok && final(self)@ == (RuntimeView {
                flush: vstd::math::max(
                    old(self)@.flush as int,
                    last_producer(old(self)@.queue, result_id, old(self)@.queue.len()) + 1,
                ) as nat,
                ..old(self)@
            }),
    {
        if result_id >= self.measurements.len() as u64 {
            return Err(RuntimeError::ResultOutOfRange(result_id));
        }
        let ghost v = self@;
        let mut i: usize = self.operation_queue.len();
        while i > 0
            invariant
                self@ == v,
                v == old(self)@,
                result_id < v.results.len(),
                view_wf(v),
                i <= v.queue.len(),
                last_producer(v.queue, result_id, v.queue.len()) == last_producer(
                    v.queue,
                    result_id,
                    i as nat,
                ),
            decreases i,
        {
            if batch_produces(&self.operation_queue[i - 1], result_id) {
                if self.flush_size < i {
                    self.flush_size = i;
                }
                return Ok(());
            }
            i -= 1;
        }
        Err(RuntimeError::ResultNotFound(result_id))
    }

    /// Marks the first free qubit active and returns its id; `u64::MAX` when none is free.
    pub fn qalloc(&mut self) -> (r: u64)
        requires
            old(self).wf(),
        ensures
            final(self).wf(),
            (final(self)@, r) == spec_qalloc(old(self)@),
    {
        let mut i: usize = 0;
        while i < self.qubits.len()
            invariant
                self@ == old(self)@,
                view_wf(self@),
                i <= self@.qubits.len(),
                first_free(self@.qubits, 0) == first_free(self@.qubits, i as nat),
            decreases self@.qubits.len() - i,
        {
            if let QubitStatus::Free = self.qubits[i] {
                self.qubits.set(i, QubitStatus::Active { phase: Angle::zero() });
                return i as u64;
            }
            i += 1;
        }
        u64::MAX
    }

    /// Marks qubit `qubit_id` free, whatever its status was.
    pub fn qfree(&mut self, qubit_id: u64) -> (r: Result<(), RuntimeError>)
        requires
            old(self).wf(),
        ensures
            final(self).wf(),
            qubit_id >= old(self)@.qubits.len() ==> r == Err::<(), _>(
                RuntimeError::QubitOutOfRange(qubit_id),
            ) && final(self)@ == old(self)@,
            qubit_id < old(self)@.qubits.len() ==> r is Ok && final(self)@ == spec_qfree(
                old(self)@,
                qubit_id,
            ),
    {
        if qubit_id >= self.qubits.len() as u64 {
            return Err(RuntimeError::QubitOutOfRange(qubit_id));
        }
        self.qubits.set(qubit_id as usize, QubitStatus::Free);
        Ok(())
    }

    /// The accumulated phase of qubit `qubit_id`, or the error that a gate on it meets.
    fn active_phase(&self, qubit_id: u64) -> (r: Result<Angle, RuntimeError>)
        ensures
            qubit_id >= self@.qubits.len() ==> r == Err::<Angle, _>(
                RuntimeError::QubitOutOfRange(qubit_id),
            ),
            qubit_id < self@.qubits.len() && self@.qubits[qubit_id as int] is Free ==> r == Err::<
                Angle,
                _,
            >(RuntimeError::InactiveQubit(qubit_id)),
            qubit_id < self@.qubits.len() && self@.qubits[qubit_id as int] is Active ==> r == Ok::<
                _,
                RuntimeError,
            >(phase_of(self@.qubits[qubit_id as int])),
    {
        if qubit_id >= self.qubits.len() as u64 {
            return Err(RuntimeError::QubitOutOfRange(qubit_id));
        }
        match self.qubits[qubit_id as usize] {
            QubitStatus::Free => Err(RuntimeError::InactiveQubit(qubit_id)),
            QubitStatus::Active { phase } => Ok(phase),
        }
    }

    /// Queues an RXY gate on an active qubit, with the qubit's accumulated Z phase
    /// subtracted from `phi`.
    pub fn rxy_gate(&mut self, qubit_id: u64, theta: Angle, phi: Angle) -> (r: Result<
        (),
        RuntimeError,
    >)
        requires
            old(self).wf(),
        ensures
            final(self).wf(),
            qubit_id >= old(self)@.qubits.len() ==> r == Err::<(), _>(
                RuntimeError::QubitOutOfRange(qubit_id),
            ) && final(self)@ == old(self)@,
            qubit_id < old(self)@.qubits.len() && old(self)@.qubits[qubit_id as int] is Free ==> r
                == Err::<(), _>(RuntimeError::InactiveQubit(qubit_id)) && final(self)@ == old(
                self,
            )@,
            qubit_id < old(self)@.qubits.len() && old(self)@.qubits[qubit_id as int] is Active
                ==> r is Ok && enqueued(
                old(self)@,
                final(self)@,
                Operation::RXYGate {
                    qubit_id,
                    theta,
                    phi: angle_sub(phi, phase_of(old(self)@.qubits[qubit_id as int])),
                },
            ),
    {
        let phase = match self.active_phase(qubit_id) {
            Ok(p) => p,
            Err(e) => return Err(e),
        };
        self.push(Operation::RXYGate { qubit_id, theta, phi: phi.minus(phase) });
        Ok(())
    }

    /// Adds `theta` to the Z phase of an active qubit; no batch is queued.
    pub fn rz_gate(&mut self, qubit_id: u64, theta: Angle) -> (r: Result<(), RuntimeError>)
        requires
            old(self).wf(),
        ensures
            final(self).wf(),
            qubit_id >= old(self)@.qubits.len() ==> r == Err::<(), _>(
                RuntimeError::QubitOutOfRange(qubit_id),
            ) && final(self)@ == old(self)@,
            qubit_id < old(self)@.qubits.len() && old(self)@.qubits[qubit_id as int] is Free ==> r
                == Err::<(), _>(RuntimeError::InactiveQubit(qubit_id)) && final(self)@ == old(
                self,
            )@,
            qubit_id < old(self)@.qubits.len() && old(self)@.qubits[qubit_id as int] is Active
                ==> r is Ok && final(self)@ == spec_rz(old(self)@, qubit_id, theta),
    {
        if qubit_id >= self.qubits.len() as u64 {
            return Err(RuntimeError::QubitOutOfRange(qubit_id));
        }
        let idx = qubit_id as usize;
        let phase = match self.qubits[idx] {
            QubitStatus::Free => return Err(RuntimeError::InactiveQubit(qubit_id)),
            QubitStatus::Active { phase } => phase,
        };
        self.qubits.set(idx, QubitStatus::Active { phase: phase.plus(theta) });
        assert(self@.qubits =~= spec_rz(old(self)@, qubit_id, theta).qubits);
        Ok(())
    }

    /// Queues an RZZ gate; both ids must be in range, neither need be active.
    pub fn rzz_gate(&mut self, qubit_id_1: u64, qubit_id_2: u64, theta: Angle) -> (r: Result<
        (),
        RuntimeError,
    >)
        requires
            old(self).wf(),
        ensures
            final(self).wf(),
            qubit_id_1 >= old(self)@.qubits.len() ==> r == Err::<(), _>(
                RuntimeError::QubitOutOfRange(qubit_id_1),
            ) && final(self)@ == old(self)@,
            qubit_id_1 < old(self)@.qubits.len() && qubit_id_2 >= old(self)@.qubits.len() ==> r
                == Err::<(), _>(RuntimeError::QubitOutOfRange(qubit_id_2)) && final(self)@ == old(
                self,
            )@,
            qubit_id_1 < old(self)@.qubits.len() && qubit_id_2 < old(self)@.qubits.len() ==> r is Ok
                && enqueued(
                old(self)@,
                final(self)@,
                Operation::RZZGate { qubit_id_1, qubit_id_2, theta },
            ),
    {
        if qubit_id_1 >= self.qubits.len() as u64 {
            return Err(RuntimeError::QubitOutOfRange(qubit_id_1));
        }
        if qubit_id_2 >= self.qubits.len() as u64 {
            return Err(RuntimeError::QubitOutOfRange(qubit_id_2));
        }
        self.push(Operation::RZZGate { qubit_id_1, qubit_id_2, theta });
        Ok(())
    }

    /// Creates an unresolved future, queues the measurement that will produce it,
    /// and returns its id.
    pub fn measure(&mut self, qubit_id: u64) -> (r: Result<u64, RuntimeError>)
        requires
            old(self).wf(),
        ensures
            final(self).wf(),
            measure_post(old(self)@, final(self)@, qubit_id, r, false),
    {
        self.measure_with(qubit_id, false)
    }

    /// As `measure`, for a measurement that also reports leakage as a wider integer.
    pub fn measure_leaked(&mut self, qubit_id: u64) -> (r: Result<u64, RuntimeError>)
        requires
            old(self).wf(),
        ensures
            final(self).wf(),
            measure_post(old(self)@, final(self)@, qubit_id, r, true),
    {
        self.measure_with(qubit_id, true)
    }

    fn measure_with(&mut self, qubit_id: u64, leaked: bool) -> (r: Result<u64, RuntimeError>)
        requires
            old(self).wf(),
        ensures
            final(self).wf(),
            measure_post(old(self)@, final(self)@, qubit_id, r, leaked),
    {
        if qubit_id >= self.qubits.len() as u64 {
            return Err(RuntimeError::QubitOutOfRange(qubit_id));
        }
        let result_id = self.measurements.len() as u64;
        self.measurements.push(Measurement { measured: false, value: 0 });
        let op = if leaked {
            Operation::MeasureLeaked { qubit_id, result_id }
        } else {
            Operation::Measure { qubit_id, result_id }
        };
        self.push(op);
        Ok(result_id)
    }

    /// Queues a reset; the qubit's allocation status does not change.
    pub fn reset(&mut self, qubit_id: u64) -> (r: Result<(), RuntimeError>)
        requires
            old(self).wf(),
        ensures
            final(self).wf(),
            qubit_id >= old(self)@.qubits.len() ==> r == Err::<(), _>(
                RuntimeError::QubitOutOfRange(qubit_id),
            ) && final(self)@ == old(self)@,
            qubit_id < old(self)@.qubits.len() ==> r is Ok && enqueued(
                old(self)@,
                final(self)@,
                Operation::Reset { qubit_id },
            ),
    {
        if qubit_id >= self.qubits.len() as u64 {
            return Err(RuntimeError::QubitOutOfRange(qubit_id));
        }
        self.push(Operation::Reset { qubit_id });
        Ok(())
    }

    /// Queues a custom operation carrying `data`; returns 0.
    pub fn custom_call(&mut self, custom_tag: u64, data: &[u8]) -> (r: u64)
        requires
            old(self).wf(),
        ensures
            final(self).wf(),
            r == 0,
            final(self)@.queue.len() == old(self)@.queue.len() + 1,
            final(self)@.queue.subrange(0, old(self)@.queue.len() as int) == old(self)@.queue,
            final(self)@.queue.last().ops@.len() == 1,
            final(self)@.queue.last().ops@[0] matches Operation::Custom { custom_tag: t, data: d }
                && t == custom_tag && d@ == data@,
            final(self)@.qubits == old(self)@.qubits,
            final(self)@.flush == old(self)@.flush,
            final(self)@.results == old(self)@.results,
    {
        let bytes = vstd::slice::slice_to_vec(data);
        self.push(Operation::Custom { custom_tag, data: bytes });
        0
    }

    /// The value of future `result_id` read as a bit, once it has been written.
    pub fn get_bool_result(&self, result_id: u64) -> (r: Result<Option<bool>, RuntimeError>)
        ensures
            result_id >= self@.results.len() ==> r == Err::<Option<bool>, _>(
                RuntimeError::ResultOutOfRange(result_id),
            ),
            result_id < self@.results.len() ==> r == Ok::<_, RuntimeError>(
                if self@.results[result_id as int].measured {
                    Some(self@.results[result_id as int].value != 0)
                } else {
                    None
                },
            ),
    {
        if result_id >= self.measurements.len() as u64 {
            return Err(RuntimeError::ResultOutOfRange(result_id));
        }
        let m = self.measurements[result_id as usize];
        Ok(
            if m.measured {
                Some(m.value != 0)
            } else {
                None
            },
        )
    }

    /// The value of future `result_id` as an integer, once it has been written.
    pub fn get_u64_result(&self, result_id: u64) -> (r: Result<Option<u64>, RuntimeError>)
        ensures
            result_id >= self@.results.len() ==> r == Err::<Option<u64>, _>(
                RuntimeError::ResultOutOfRange(result_id),
            ),
            result_id < self@.results.len() ==> r == Ok::<_, RuntimeError>(
                if self@.results[result_id as int].measured {
                    Some(self@.results[result_id as int].value)
                } else {
                    None
                },
            ),
    {
        if result_id >= self.measurements.len() as u64 {
            return Err(RuntimeError::ResultOutOfRange(result_id));
        }
        let m = self.measurements[result_id as usize];
        Ok(
            if m.measured {
                Some(m.value)
            } else {
                None
            },
        )
    }

    /// Resolves future `result_id` to the bit `value` (held as 0 or 1).
    pub fn set_bool_result(&mut self, result_id: u64, value: bool) -> (r: Result<(), RuntimeError>)
        requires
            old(self).wf(),
        ensures
            final(self).wf(),
            set_post(old(self)@, final(self)@, result_id, if value { 1 } else { 0 }, r),
    {
        self.set_u64_result(result_id, if value { 1 } else { 0 })
    }

    /// Resolves future `result_id` to `value`.
    pub fn set_u64_result(&mut self, result_id: u64, value: u64) -> (r: Result<(), RuntimeError>)
        requires
            old(self).wf(),
        ensures
            final(self).wf(),
            set_post(old(self)@, final(self)@, result_id, value, r),
    {
        if result_id >= self.measurements.len() as u64 {
            return Err(RuntimeError::ResultOutOfRange(result_id));
        }
        self.measurements.set(result_id as usize, Measurement { measured: true, value });
        Ok(())
    }

    /// Writes the results of one batch into the future table: the bit results,
    /// then the integer results, in order, stopping at the first unknown id.
    pub fn apply_results(&mut self, results: &BatchResult) -> (r: Result<(), RuntimeError>)
        requires
            old(self).wf(),
        ensures
            final(self).wf(),
            ({
                let (t, e) = apply_writes(old(self)@.results, batch_writes(*results));
                &&& final(self)@ == RuntimeView { results: t, ..old(self)@ }
                &&& e is None ==> r is Ok
                &&& e matches Some(id) ==> r == Err::<(), _>(RuntimeError::ResultOutOfRange(id))
            }),
    {
        let ghost w = batch_writes(*results);
        let nb = results.bool_results.len();
        let nu = results.u64_results.len();
        assert(w.take(0) =~= Seq::<(u64, u64)>::empty());
        let mut i: usize = 0;
        while i < nb
            invariant
                self.wf(),
                w == batch_writes(*results),
                nb == results.bool_results@.len(),
                nu == results.u64_results@.len(),
                i <= nb,
                self@ == (RuntimeView { results: self@.results, ..old(self)@ }),
                apply_writes(old(self)@.results, w.take(i as int)) == (self@.results, None::<u64>),
            decreases nb - i,
        {
            let b = results.bool_results[i];
            proof {
                assert(w.take(i + 1).drop_last() =~= w.take(i as int));
                assert(w[i as int] == (b.result_id, if b.value { 1u64 } else { 0u64 }));
            }
            if let Err(e) = self.set_bool_result(b.result_id, b.value) {
                proof {
                    lemma_apply_error_sticks(old(self)@.results, w, (i + 1) as nat);
                }
                return Err(e);
            }
            i += 1;
        }
        let mut j: usize = 0;
        while j < nu
            invariant
                self.wf(),
                w == batch_writes(*results),
                nb == results.bool_results@.len(),
                nu == results.u64_results@.len(),
                w.len() == nb + nu,
                j <= nu,
                self@ == (RuntimeView { results: self@.results, ..old(self)@ }),
                apply_writes(old(self)@.results, w.take(nb + j)) == (self@.results, None::<u64>),
            decreases nu - j,
        {
            let u = results.u64_results[j];
            proof {
                assert(w.take(nb + j + 1).drop_last() =~= w.take(nb + j));
                assert(w[nb + j] == (u.result_id, u.value));
            }
            if let Err(e) = self.set_u64_result(u.result_id, u.value) {
                proof {
                    lemma_apply_error_sticks(old(self)@.results, w, (nb + j + 1) as nat);
                }
                return Err(e);
            }
            j += 1;
        }
        assert(w.take(nb + nu) =~= w);
        Ok(())
    }

    /// Reference counting of futures is accepted and has no effect on this scheduler.
    pub fn increment_future_refcount(&mut self, _result_id: u64)
        ensures
            final(self)@ == old(self)@,
    {
    }

    /// Reference counting of futures is accepted and has no effect on this scheduler.
    pub fn decrement_future_refcount(&mut self, _result_id: u64)
        ensures
            final(self)@ == old(self)@,
    {
    }
}

/// The state after `k` successive calls of `qalloc` on `v`.
pub open spec fn alloc_times(v: RuntimeView, k: nat) -> RuntimeView
    decreases k,
{
    if k == 0 {
        v
    } else {
        spec_qalloc(alloc_times(v, (k - 1) as nat)).0
    }
}

proof fn lemma_first_free_found(q: Seq<QubitStatus>, i: nat, j: nat)
    requires
        i <= j < q.len(),
        q[j as int] is Free,
        forall|k: int| i <= k < j ==> q[k] is Active,
    ensures
        first_free(q, i) == j,
    decreases j - i,
{
    if i < j {
        lemma_first_free_found(q, i + 1, j);
    }
}

proof fn lemma_first_free_none(q: Seq<QubitStatus>, i: nat)
    requires
        forall|k: int| i <= k < q.len() ==> q[k] is Active,
    ensures
        first_free(q, i) == -1,
    decreases q.len() - i,
{
    if i < q.len() {
        lemma_first_free_none(q, i + 1);
    }
}

proof fn lemma_first_free_bounds(q: Seq<QubitStatus>, i: nat)
    ensures
        first_free(q, i) >= 0 ==> i <= first_free(q, i) < q.len() && q[first_free(q, i)] is Free,
    decreases q.len() - i,
{
    if i < q.len() {
        lemma_first_free_bounds(q, i + 1);
    }
}

proof fn lemma_alloc_prefix(n: nat, start: Instant, k: nat)
    requires
        k <= n,
        n < u64::MAX,
    ensures
        alloc_times(fresh(n, start), k) == (RuntimeView {
            qubits: Seq::new(
                n,
                |i: int|
                    if i < k {
                        QubitStatus::Active { phase: Angle(0) }
                    } else {
                        QubitStatus::Free
                    },
            ),
            ..fresh(n, start)
        }),
    decreases k,
{
    let f = fresh(n, start);
    if k == 0 {
        assert(f.qubits =~= Seq::new(n, |i: int| QubitStatus::Free));
        assert(alloc_times(f, 0).qubits =~= Seq::new(
            n,
            |i: int|
                if i < 0 {
                    QubitStatus::Active { phase: Angle(0) }
                } else {
                    QubitStatus::Free
                },
        ));
    } else {
        lemma_alloc_prefix(n, start, (k - 1) as nat);
        let prev = alloc_times(f, (k - 1) as nat);
        lemma_first_free_found(prev.qubits, 0, (k - 1) as nat);
        assert(alloc_times(f, k).qubits =~= Seq::new(
            n,
            |i: int|
                if i < k {
                    QubitStatus::Active { phase: Angle(0) }
                } else {
                    QubitStatus::Free
                },
        ));
    }
}

/// On a fresh shot over `n` qubits, the `k`-th allocation (from 0) returns `k`
/// while `k < n`; once all `n` are taken the next one returns the sentinel `u64::MAX`.
pub proof fn lemma_allocation_exhausts(n: nat, start: Instant, k: nat)
    requires
        k <= n,
        n < u64::MAX,
    ensures
        k < n ==> spec_qalloc(alloc_times(fresh(n, start), k)).1 == k,
        k == n ==> spec_qalloc(alloc_times(fresh(n, start), k)).1 == u64::MAX,
{
    lemma_alloc_prefix(n, start, k);
    let v = alloc_times(fresh(n, start), k);
    if k < n {
        lemma_first_free_found(v.qubits, 0, k);
    } else {
        lemma_first_free_none(v.qubits, 0);
    }
}

/// A qubit id returned by `qalloc` names an active qubit, and freeing it makes it free again.
pub proof fn lemma_alloc_then_free(v: RuntimeView)
    requires
        v.qubits.len() <= u64::MAX,
    ensures
        spec_qalloc(v).1 != u64::MAX ==> {
            let (v1, i) = spec_qalloc(v);
            &&& i < v.qubits.len()
            &&& v1.qubits[i as int] is Active
            &&& spec_qfree(v1, i).qubits[i as int] == QubitStatus::Free
        },
{
    lemma_first_free_bounds(v.qubits, 0);
}

proof fn lemma_last_touch(queue: Seq<BatchOperation>, qubits: Seq<u64>, lo: nat, hi: nat)
    requires
        hi <= queue.len(),
    ensures
        last_touch(queue, qubits, lo, hi) == -1 || (lo <= last_touch(queue, qubits, lo, hi) < hi
            && queue[last_touch(queue, qubits, lo, hi)].touches(qubits)),
        forall|k: int|
            lo <= k < hi && k > last_touch(queue, qubits, lo, hi) ==> !(
            #[trigger] queue[k]).touches(qubits),
    decreases hi,
{
    if hi > lo {
        lemma_last_touch(queue, qubits, lo, (hi - 1) as nat);
    }
}

proof fn lemma_last_touch_none(queue: Seq<BatchOperation>, qubits: Seq<u64>, lo: nat, hi: nat)
    requires
        forall|k: int| lo <= k < hi ==> !(#[trigger] queue[k]).touches(qubits),
    ensures
        last_touch(queue, qubits, lo, hi) == -1,
    decreases hi,
{
    if hi > lo {
        lemma_last_touch_none(queue, qubits, lo, (hi - 1) as nat);
    }
}

/// A local barrier never moves the flush cursor back nor past the queue's end, and
/// a second one over the same qubits, with nothing queued in between, changes nothing.
pub proof fn lemma_local_barrier_idempotent(v: RuntimeView, qubits: Seq<u64>)
    requires
        view_wf(v),
    ensures
        v.flush <= local_barrier_flush(v, qubits) <= v.queue.len(),
        ({
            let v1 = RuntimeView { flush: local_barrier_flush(v, qubits), ..v };
            local_barrier_flush(v1, qubits) == v1.flush
        }),
{
    lemma_last_touch(v.queue, qubits, v.flush, v.queue.len());
    let f1 = local_barrier_flush(v, qubits);
    lemma_last_touch_none(v.queue, qubits, f1, v.queue.len());
}

proof fn lemma_last_producer(queue: Seq<BatchOperation>, result_id: u64, hi: nat)
    requires
        hi <= queue.len(),
    ensures
        last_producer(queue, result_id, hi) == -1 || (0 <= last_producer(queue, result_id, hi) < hi
            && queue[last_producer(queue, result_id, hi)].produces(result_id)),
        forall|k: int|
            0 <= k < hi && k > last_producer(queue, result_id, hi) ==> !(
            #[trigger] queue[k]).produces(result_id),
    decreases hi,
{
    if hi > 0 {
        lemma_last_producer(queue, result_id, (hi - 1) as nat);
    }
}

proof fn lemma_last_producer_none(queue: Seq<BatchOperation>, result_id: u64, hi: nat)
    requires
        hi <= queue.len(),
        forall|k: int| 0 <= k < hi ==> !(#[trigger] queue[k]).produces(result_id),
    ensures
        last_producer(queue, result_id, hi) == -1,
    decreases hi,
{
    if hi > 0 {
        lemma_last_producer_none(queue, result_id, (hi - 1) as nat);
    }
}

/// Once the queue has been drained past the last batch producing a result, no
/// queued batch produces it any more.
pub proof fn lemma_producer_drained(queue: Seq<BatchOperation>, result_id: u64, f: nat)
    requires
        f <= queue.len(),
        last_producer(queue, result_id, queue.len()) < f,
    ensures
        ({
            let rest = queue.subrange(f as int, queue.len() as int);
            last_producer(rest, result_id, rest.len()) < 0
        }),
{
    lemma_last_producer(queue, result_id, queue.len());
    let rest = queue.subrange(f as int, queue.len() as int);
    assert forall|k: int| 0 <= k < rest.len() implies !(#[trigger] rest[k]).produces(result_id) by {
        assert(rest[k] == queue[f + k]);
    }
    lemma_last_producer_none(rest, result_id, rest.len());
}

/// After `force_result(r)` succeeds, the batch that produces `r` lies in the
/// eligible prefix: draining hands it on and leaves only later batches queued.
pub proof fn lemma_force_makes_producer_eligible(v: RuntimeView, result_id: u64)
    requires
        view_wf(v),
        last_producer(v.queue, result_id, v.queue.len()) >= 0,
    ensures
        ({
            let i = last_producer(v.queue, result_id, v.queue.len());
            let v1 = RuntimeView {
                flush: vstd::math::max(v.flush as int, i + 1) as nat,
                ..v
            };
            &&& view_wf(v1)
            &&& v.queue[i].produces(result_id)
            &&& i < v1.flush
            &&& drained(v1).queue == v.queue.subrange(v1.flush as int, v.queue.len() as int)
        }),
{
    lemma_last_producer(v.queue, result_id, v.queue.len());
}

/// An RZ gate is folded into the next RXY gate on the same qubit: the RXY is
/// emitted with `phi` reduced by the phase held before plus `theta1`, and from a
/// freshly allocated qubit (phase 0) by exactly `theta1`, modulo a full turn.
pub proof fn lemma_rz_folds_into_rxy(
    v: RuntimeView,
    v2: RuntimeView,
    q: u64,
    theta1: Angle,
    theta2: Angle,
    phi: Angle,
)
    requires
        q < v.qubits.len(),
        v.qubits[q as int] is Active,
        enqueued(
            spec_rz(v, q, theta1),
            v2,
            Operation::RXYGate {
                qubit_id: q,
                theta: theta2,
                phi: angle_sub(phi, phase_of(spec_rz(v, q, theta1).qubits[q as int])),
            },
        ),
    ensures
        v2.queue.len() == v.queue.len() + 1,
        v2.queue.last().ops@ == seq![
            Operation::RXYGate {
                qubit_id: q,
                theta: theta2,
                phi: angle_sub(phi, angle_add(phase_of(v.qubits[q as int]), theta1)),
            },
        ],
        v.qubits[q as int] == (QubitStatus::Active { phase: Angle(0) })
            ==> v2.queue.last().ops@ == seq![
            Operation::RXYGate { qubit_id: q, theta: theta2, phi: angle_sub(phi, theta1) },
        ],
{
}

} // verus!
