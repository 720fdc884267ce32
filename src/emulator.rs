use vstd::prelude::*;

use crate::encoder::{OutputStream, OutputStreamError};
use crate::error_model::{BatchResult, ErrorModelInterface, PluginError};
use crate::operation::{Angle, BatchOperation, Operation};
use crate::runtime::{
    all_writes, apply_writes, batch_writes, lemma_apply_concat, lemma_apply_monotone, last_producer, spec_qalloc, spec_qfree, spec_rz, view_wf, RuntimeError, RuntimeView,
    SimpleRuntime,
};

verus! {

/// A call issued by the user program, as reported to event hooks.
#[derive(Debug, Clone)]
pub enum UserCall {
    QAlloc(u64),
    QFree(u64),
    LocalBarrier(Vec<u64>, u64),
    GlobalBarrier(u64),
    RXY(u64, Angle, Angle),
    RZZ(u64, u64, Angle),
    RZ(u64, Angle),
    Reset(u64),
    MeasureRequest(u64),
    MeasureLeakedRequest(u64),
    FutureRead(u64),
}

/// An observer of the emulation: it is told of user calls, of the batches handed
/// to the error model and of shot boundaries, and may write what it gathered to
/// the output stream at each shot's end.
pub trait EventHook {
    fn on_user_call(&mut self, call: &UserCall);

    fn on_runtime_batch(&mut self, batch: &BatchOperation);

    fn on_shot_start(&mut self, shot_id: u64);

    fn on_shot_end(&mut self);

    fn write(&mut self, time_cursor: u64, encoder: &mut OutputStream) -> Result<
        (),
        OutputStreamError,
    >;
}

/// Why an emulator call failed.
#[derive(Debug, Clone)]
pub enum EmulatorError {
    /// The scheduler refused the call.
    Runtime(RuntimeError),
    /// The error model failed.
    Plugin(PluginError),
    /// A forced and drained future was still unresolved.
    ResultUnavailable(u64),
}

/// What any drain of the queue keeps: the allocation state, the clock, the number
/// of futures and the resolution of resolved ones; the queue loses a prefix.
pub open spec fn drain_frame(old: RuntimeView, new: RuntimeView) -> bool {
    &&& view_wf(new)
    &&& new.qubits == old.qubits
    &&& new.start == old.start
    &&& new.results.len() == old.results.len()
    &&& forall|i: int|
        0 <= i < old.results.len() && (#[trigger] old.results[i]).measured
            ==> new.results[i].measured
    &&& new.flush <= old.flush
    &&& new.queue == old.queue.subrange(
        old.flush - new.flush,
        old.queue.len() as int,
    )
}

/// What a drain of `old` that handed `k` batches on and received the results
/// `rets` left behind: the queue lost those `k` batches; `rets[i]` answered
/// `old.queue[i]`, and the writes of `rets` were applied to the future table in
/// order. It ends `Ok` after every eligible batch; with `ResultOutOfRange` when a
/// reported id is unknown (the writes stopping there); with a plugin error when
/// the error model failed on the `k`-th batch.
pub open spec fn drain_log(
    old: RuntimeView,
    new: RuntimeView,
    k: nat,
    rets: Seq<BatchResult>,
    r: Result<(), EmulatorError>,
) -> bool {
    &&& k <= old.flush
    &&& new.queue == old.queue.subrange(k as int, old.queue.len() as int)
    &&& new.flush == old.flush - k
    &&& new.qubits == old.qubits
    &&& new.start == old.start
    &&& match r {
        Ok(()) => k == old.flush && rets.len() == k && apply_writes(old.results, all_writes(rets))
            == (new.results, None::<u64>),
        Err(EmulatorError::Runtime(RuntimeError::ResultOutOfRange(id))) => k >= 1 && rets.len()
            == k && apply_writes(old.results, all_writes(rets)) == (new.results, Some(id)),
        Err(EmulatorError::Plugin(_)) => k >= 1 && rets.len() + 1 == k && apply_writes(
            old.results,
            all_writes(rets),
        ) == (new.results, None::<u64>),
        Err(_) => false,
    }
}

proof fn lemma_all_writes_contains(rets: Seq<BatchResult>, j: int, x: (u64, u64))
    requires
        0 <= j < rets.len(),
        batch_writes(rets[j]).contains(x),
    ensures
        all_writes(rets).contains(x),
    decreases rets.len(),
{
    let w = all_writes(rets);
    if j == rets.len() - 1 {
        let bw = batch_writes(rets.last());
        let i = choose|i: int| 0 <= i < bw.len() && bw[i] == x;
        assert(w[all_writes(rets.drop_last()).len() + i] == x);
    } else {
        lemma_all_writes_contains(rets.drop_last(), j, x);
        let pre = all_writes(rets.drop_last());
        let i = choose|i: int| 0 <= i < pre.len() && pre[i] == x;
        assert(w[i] == x);
    }
}

/// A result that the error model reported during a drain that succeeded is
/// resolved in the future table afterwards: so once `force_result(r)` has made
/// the batch producing `r` eligible and the error model answers it with a result
/// for `r`, reading `r` gives `Some`.
pub proof fn lemma_drain_resolves(
    old: RuntimeView,
    new: RuntimeView,
    k: nat,
    rets: Seq<BatchResult>,
    j: int,
    x: (u64, u64),
)
    requires
        drain_log(old, new, k, rets, Ok(())),
        0 <= j < rets.len(),
        batch_writes(rets[j]).contains(x),
    ensures
        x.0 < new.results.len(),
        new.results[x.0 as int].measured,
{
    lemma_all_writes_contains(rets, j, x);
    crate::runtime::lemma_apply_resolves(old.results, all_writes(rets), x);
    lemma_apply_monotone(old.results, all_writes(rets));
}

/// A complete drain: every eligible batch was handed to the error model.
pub open spec fn drained_from(old: RuntimeView, new: RuntimeView) -> bool {
    drain_frame(old, new) && new.flush == 0
}

/// `op` was queued as one batch on `old`, then the eligible prefix drained.
pub open spec fn enqueued_then_drained(old: RuntimeView, new: RuntimeView, op: Operation) -> bool {
    &&& new.queue.len() == old.queue.len() - old.flush + 1
    &&& new.queue.subrange(0, new.queue.len() - 1) == old.queue.subrange(
        old.flush as int,
        old.queue.len() as int,
    )
    &&& new.queue.last().ops@ == seq![op]
    &&& new.flush == 0
    &&& view_wf(new)
    &&& new.qubits == old.qubits
    &&& new.start == old.start
    &&& new.results.len() == old.results.len()
}

proof fn lemma_enqueue_then_drain(old: RuntimeView, mid: RuntimeView, new: RuntimeView, op: Operation)
    requires
        view_wf(old),
        crate::runtime::enqueued(old, mid, op),
        drained_from(mid, new),
    ensures
        enqueued_then_drained(old, new, op),
{
    assert(new.queue.subrange(0, new.queue.len() - 1) =~= old.queue.subrange(
        old.flush as int,
        old.queue.len() as int,
    ));
}

/// The outcome of a lazy measurement of `q0` on `old`, then a drain.
pub open spec fn measure_then_drained(
    old: RuntimeView,
    new: RuntimeView,
    q0: u64,
    r: Result<u64, EmulatorError>,
    leaked: bool,
) -> bool {
    &&& q0 >= old.qubits.len() ==> r == Err::<u64, _>(
        EmulatorError::Runtime(RuntimeError::QubitOutOfRange(q0)),
    ) && new == old
    &&& q0 < old.qubits.len() && old.flush == 0 ==> r is Ok
    &&& r matches Ok(id) ==> {
        &&& id == old.results.len()
        &&& new.results.len() == id + 1
        &&& new.queue.len() == old.queue.len() - old.flush + 1
        &&& new.queue.subrange(0, new.queue.len() - 1) == old.queue.subrange(
            old.flush as int,
            old.queue.len() as int,
        )
        &&& new.queue.last().ops@ == seq![
            if leaked {
                Operation::MeasureLeaked { qubit_id: q0, result_id: id }
            } else {
                Operation::Measure { qubit_id: q0, result_id: id }
            },
        ]
        &&& new.flush == 0
        &&& new.qubits == old.qubits
    }
}

/// The outcome of reading future `result_id` (as a bit when `as_bool`, the value
/// then being 0 or 1; else as an integer).
pub open spec fn read_future_post(
    old: RuntimeView,
    new: RuntimeView,
    result_id: u64,
    r: Result<u64, EmulatorError>,
    as_bool: bool,
) -> bool {
    &&& result_id >= old.results.len() ==> r == Err::<u64, _>(
        EmulatorError::Runtime(RuntimeError::ResultOutOfRange(result_id)),
    ) && new == old
    &&& result_id < old.results.len() && old.results[result_id as int].measured ==> new == old
        && r == Ok::<_, EmulatorError>(read_value(old.results[result_id as int].value, as_bool))
    &&& result_id < old.results.len() && !old.results[result_id as int].measured
        && last_producer(old.queue, result_id, old.queue.len()) < 0 ==> r == Err::<u64, _>(
        EmulatorError::Runtime(RuntimeError::ResultNotFound(result_id)),
    ) && new == old
    &&& r matches Ok(v) ==> result_id < new.results.len() && new.results[result_id as int].measured
        && v == read_value(new.results[result_id as int].value, as_bool)
    &&& r matches Err(EmulatorError::ResultUnavailable(id)) ==> id == result_id && result_id
        < new.results.len() && !new.results[result_id as int].measured
    &&& result_id < old.results.len() && !old.results[result_id as int].measured
        && last_producer(old.queue, result_id, old.queue.len()) >= 0 && (r is Ok
        || r is Err && r->Err_0 is ResultUnavailable) ==> last_producer(
        new.queue,
        result_id,
        new.queue.len(),
    ) < 0 && exists|k: nat, rets: Seq<BatchResult>|
        #[trigger] drain_log(forced_view(old, result_id), new, k, rets, Ok(()))
    &&& view_wf(new)
    &&& new.qubits == old.qubits
    &&& new.results.len() == old.results.len()
}

/// The state after a successful `force_result(result_id)` on `old`.
pub open spec fn forced_view(old: RuntimeView, result_id: u64) -> RuntimeView {
    RuntimeView {
        flush: vstd::math::max(
            old.flush as int,
            last_producer(old.queue, result_id, old.queue.len()) + 1,
        ) as nat,
        ..old
    }
}

/// A bit result seen as an integer result (0 or 1).
pub open spec fn bit_result(r: Result<bool, EmulatorError>) -> Result<u64, EmulatorError> {
    match r {
        Ok(b) => Ok(if b { 1u64 } else { 0u64 }),
        Err(e) => Err(e),
    }
}

/// A stored value as read back: as a bit (0 or 1) or as the integer itself.
pub open spec fn read_value(value: u64, as_bool: bool) -> u64 {
    if as_bool {
        if value != 0 {
            1
        } else {
            0
        }
    } else {
        value
    }
}

/// The orchestrator: forwards user calls to the scheduler and drains newly
/// eligible batches through the error model, writing results back.
pub struct Emulator<E, H> {
    pub runtime: SimpleRuntime,
    pub error_model: E,
    pub event_hooks: H,
}

impl<E: ErrorModelInterface, H: EventHook> Emulator<E, H> {
    pub open spec fn wf(&self) -> bool {
        self.runtime.wf()
    }

    /// Drains the queue: every eligible batch, in order, goes to the error model
    /// and the results it reports are written into the future table (see
    /// `drain_log`); the first failure stops the drain.
    pub fn process_runtime(&mut self) -> (r: Result<(), EmulatorError>)
        requires
            old(self).wf(),
        ensures
            final(self).wf(),
            drain_frame(old(self).runtime@, final(self).runtime@),
            r is Ok ==> drained_from(old(self).runtime@, final(self).runtime@),
            exists|k: nat, rets: Seq<BatchResult>|
                #[trigger] drain_log(old(self).runtime@, final(self).runtime@, k, rets, r),
            old(self).runtime@.flush == 0 ==> r is Ok && final(self).runtime@ == old(
                self,
            ).runtime@,
    {
        let ghost start = self.runtime@;
        let ghost mut k: nat = 0;
        let ghost mut rets: Seq<BatchResult> = Seq::empty();
        proof {
            assert(start.queue.subrange(0, start.queue.len() as int) =~= start.queue);
        }
        loop
            invariant
                start == old(self).runtime@,
                view_wf(start),
                self.wf(),
                drain_frame(start, self.runtime@),
                k <= start.flush,
                self.runtime@.flush == start.flush - k,
                rets.len() == k,
                apply_writes(start.results, all_writes(rets)) == (self.runtime@.results, None::<u64>),
            ensures
                self.wf(),
                drained_from(start, self.runtime@),
                drain_log(start, self.runtime@, k, rets, Ok(())),
            decreases self.runtime@.flush,
        {
            let ghost prev = self.runtime@;
            let batch = match self.runtime.get_next_operations() {
                None => break,
                Some(b) => b,
            };
            proof {
                k = k + 1;
                let v = self.runtime@;
                assert(v.queue =~= start.queue.subrange(
                    start.flush - v.flush,
                    start.queue.len() as int,
                ));
            }
            self.event_hooks.on_runtime_batch(&batch);
            let results = match self.error_model.handle_operations(batch) {
                Ok(res) => res,
                Err(e) => {
                    proof {
                        assert(drain_log(start, self.runtime@, k, rets, Err(EmulatorError::Plugin(e))));
                    }
                    return Err(EmulatorError::Plugin(e));
                },
            };
            let ghost before = self.runtime@;
            let applied = self.runtime.apply_results(&results);
            proof {
                let old_rets = rets;
                rets = rets.push(results);
                assert(rets.drop_last() =~= old_rets);
                lemma_apply_concat(start.results, all_writes(old_rets), batch_writes(results));
                lemma_apply_monotone(before.results, batch_writes(results));
                assert forall|i: int|
                    0 <= i < start.results.len() && (#[trigger] start.results[i]).measured
                    implies self.runtime@.results[i].measured by {
                    assert(before.results[i].measured);
                }
                assert(drain_frame(start, self.runtime@));
            }
            if let Err(e) = applied {
                proof {
                    assert(drain_log(start, self.runtime@, k, rets, Err(EmulatorError::Runtime(e))));
                }
                return Err(EmulatorError::Runtime(e));
            }
        }
        proof {
            if start.flush == 0 {
                assert(self.runtime@.queue =~= start.queue);
                assert(self.runtime@ == start);
            }
        }
        Ok(())
    }

    /// Notifies the hooks of `call`, then drains.
    fn finish_call(&mut self, call: UserCall) -> (r: Result<(), EmulatorError>)
        requires
            old(self).wf(),
        ensures
            final(self).wf(),
            drain_frame(old(self).runtime@, final(self).runtime@),
            r is Ok ==> drained_from(old(self).runtime@, final(self).runtime@),
            old(self).runtime@.flush == 0 ==> r is Ok && final(self).runtime@ == old(
                self,
            ).runtime@,
    {
        self.event_hooks.on_user_call(&call);
        self.process_runtime()
    }

    /// Drains whatever is eligible.
    pub fn poke(&mut self) -> (r: Result<(), EmulatorError>)
        requires
            old(self).wf(),
        ensures
            final(self).wf(),
            drain_frame(old(self).runtime@, final(self).runtime@),
            r is Ok ==> drained_from(old(self).runtime@, final(self).runtime@),
            old(self).runtime@.flush == 0 ==> r is Ok && final(self).runtime@ == old(
                self,
            ).runtime@,
    {
        self.process_runtime()
    }

    /// Makes everything queued eligible, drains it, then has the error model dump
    /// the simulator state for `qubits` to `file`.
    pub fn dump_quantum_state(&mut self, file: &str, qubits: &[u64]) -> (r: Result<
        (),
        EmulatorError,
    >)
        requires
            old(self).wf(),
        ensures
            final(self).wf(),
            r is Ok ==> final(self).runtime@.queue.len() == 0,
    {
        self.runtime.global_barrier(0);
        if let Err(e) = self.process_runtime() {
            return Err(e);
        }
        match self.error_model.dump_simulator_state(file, qubits) {
            Ok(()) => Ok(()),
            Err(e) => Err(EmulatorError::Plugin(e)),
        }
    }

    /// Allocates a qubit (or returns the sentinel `u64::MAX`), then drains.
    pub fn user_issued_qalloc(&mut self) -> (r: Result<u64, EmulatorError>)
        requires
            old(self).wf(),
        ensures
            final(self).wf(),
            r matches Ok(a) ==> a == spec_qalloc(old(self).runtime@).1 && drained_from(
                spec_qalloc(old(self).runtime@).0,
                final(self).runtime@,
            ),
            old(self).runtime@.flush == 0 ==> r is Ok,
    {
        let address = self.runtime.qalloc();
        match self.finish_call(UserCall::QAlloc(address)) {
            Ok(()) => Ok(address),
            Err(e) => Err(e),
        }
    }

    /// Frees a qubit, then drains.
    pub fn user_issued_qfree(&mut self, address: u64) -> (r: Result<(), EmulatorError>)
        requires
            old(self).wf(),
        ensures
            final(self).wf(),
            address >= old(self).runtime@.qubits.len() ==> r == Err::<(), _>(
                EmulatorError::Runtime(RuntimeError::QubitOutOfRange(address)),
            ) && final(self).runtime@ == old(self).runtime@,
            r is Ok ==> drained_from(spec_qfree(old(self).runtime@, address), final(self).runtime@),
            address < old(self).runtime@.qubits.len() && old(self).runtime@.flush == 0 ==> r is Ok,
    {
        if let Err(e) = self.runtime.qfree(address) {
            return Err(EmulatorError::Runtime(e));
        }
        self.finish_call(UserCall::QFree(address))
    }

    /// Applies a local barrier over `qubits`, then drains.
    pub fn user_issued_local_barrier(&mut self, qubits: &[u64], sleep_time: u64) -> (r: Result<
        (),
        EmulatorError,
    >)
        requires
            old(self).wf(),
        ensures
            final(self).wf(),
            r is Ok ==> drained_from(
                RuntimeView {
                    flush: crate::runtime::local_barrier_flush(old(self).runtime@, qubits@),
                    ..old(self).runtime@
                },
                final(self).runtime@,
            ),
            crate::runtime::local_barrier_flush(old(self).runtime@, qubits@) == 0 ==> r is Ok,
    {
        self.runtime.local_barrier(qubits, sleep_time);
        let listed = vstd::slice::slice_to_vec(qubits);
        self.finish_call(UserCall::LocalBarrier(listed, sleep_time))
    }

    /// Applies a global barrier, then drains: the queue ends empty.
    pub fn user_issued_global_barrier(&mut self, sleep_time: u64) -> (r: Result<
        (),
        EmulatorError,
    >)
        requires
            old(self).wf(),
        ensures
            final(self).wf(),
            r is Ok ==> final(self).runtime@.queue.len() == 0 && drained_from(
                RuntimeView { flush: old(self).runtime@.queue.len(), ..old(self).runtime@ },
                final(self).runtime@,
            ),
            old(self).runtime@.queue.len() == 0 ==> r is Ok,
    {
        self.runtime.global_barrier(sleep_time);
        self.finish_call(UserCall::GlobalBarrier(sleep_time))
    }

    /// Queues an RXY gate (with the qubit's Z phase folded into `phi`), then drains.
    pub fn user_issued_rxy(&mut self, q0: u64, theta: Angle, phi: Angle) -> (r: Result<
        (),
        EmulatorError,
    >)
        requires
            old(self).wf(),
        ensures
            final(self).wf(),
            q0 >= old(self).runtime@.qubits.len() ==> r == Err::<(), _>(
                EmulatorError::Runtime(RuntimeError::QubitOutOfRange(q0)),
            ) && final(self).runtime@ == old(self).runtime@,
            q0 < old(self).runtime@.qubits.len() && old(self).runtime@.qubits[q0 as int] is Free
                ==> r == Err::<(), _>(EmulatorError::Runtime(RuntimeError::InactiveQubit(q0)))
                && final(self).runtime@ == old(self).runtime@,
            r is Ok ==> enqueued_then_drained(
                old(self).runtime@,
                final(self).runtime@,
                Operation::RXYGate {
                    qubit_id: q0,
                    theta,
                    phi: crate::operation::angle_sub(
                        phi,
                        crate::runtime::phase_of(old(self).runtime@.qubits[q0 as int]),
                    ),
                },
            ),
            q0 < old(self).runtime@.qubits.len() && old(self).runtime@.qubits[q0 as int] is Active && old(self).runtime@.flush == 0 ==> r is Ok,
    {
        let ghost v0 = self.runtime@;
        if let Err(e) = self.runtime.rxy_gate(q0, theta, phi) {
            return Err(EmulatorError::Runtime(e));
        }
        let ghost v1 = self.runtime@;
        let r = self.finish_call(UserCall::RXY(q0, theta, phi));
        proof {
            if r is Ok {
                lemma_enqueue_then_drain(
                    v0,
                    v1,
                    self.runtime@,
                    Operation::RXYGate {
                        qubit_id: q0,
                        theta,
                        phi: crate::operation::angle_sub(
                            phi,
                            crate::runtime::phase_of(v0.qubits[q0 as int]),
                        ),
                    },
                );
            }
        }
        r
    }

    /// Queues an RZZ gate, then drains.
    pub fn user_issued_rzz(&mut self, q0: u64, q1: u64, theta: Angle) -> (r: Result<
        (),
        EmulatorError,
    >)
        requires
            old(self).wf(),
        ensures
            final(self).wf(),
            q0 >= old(self).runtime@.qubits.len() ==> r == Err::<(), _>(
                EmulatorError::Runtime(RuntimeError::QubitOutOfRange(q0)),
            ) && final(self).runtime@ == old(self).runtime@,
            q0 < old(self).runtime@.qubits.len() && q1 >= old(self).runtime@.qubits.len() ==> r
                == Err::<(), _>(EmulatorError::Runtime(RuntimeError::QubitOutOfRange(q1)))
                && final(self).runtime@ == old(self).runtime@,
            r is Ok ==> enqueued_then_drained(
                old(self).runtime@,
                final(self).runtime@,
                Operation::RZZGate { qubit_id_1: q0, qubit_id_2: q1, theta },
            ),
            q0 < old(self).runtime@.qubits.len() && q1 < old(self).runtime@.qubits.len() && old(self).runtime@.flush == 0 ==> r is Ok,
    {
        let ghost v0 = self.runtime@;
        if let Err(e) = self.runtime.rzz_gate(q0, q1, theta) {
            return Err(EmulatorError::Runtime(e));
        }
        let ghost v1 = self.runtime@;
        let r = self.finish_call(UserCall::RZZ(q0, q1, theta));
        proof {
            if r is Ok {
                lemma_enqueue_then_drain(
                    v0,
                    v1,
                    self.runtime@,
                    Operation::RZZGate { qubit_id_1: q0, qubit_id_2: q1, theta },
                );
            }
        }
        r
    }

    /// Accumulates an RZ phase on the qubit, then drains.
    pub fn user_issued_rz(&mut self, q0: u64, theta: Angle) -> (r: Result<(), EmulatorError>)
        requires
            old(self).wf(),
        ensures
            final(self).wf(),
            q0 >= old(self).runtime@.qubits.len() ==> r == Err::<(), _>(
                EmulatorError::Runtime(RuntimeError::QubitOutOfRange(q0)),
            ) && final(self).runtime@ == old(self).runtime@,
            q0 < old(self).runtime@.qubits.len() && old(self).runtime@.qubits[q0 as int] is Free
                ==> r == Err::<(), _>(EmulatorError::Runtime(RuntimeError::InactiveQubit(q0)))
                && final(self).runtime@ == old(self).runtime@,
            r is Ok ==> drained_from(spec_rz(old(self).runtime@, q0, theta), final(self).runtime@),
            q0 < old(self).runtime@.qubits.len() && old(self).runtime@.qubits[q0 as int] is Active && old(self).runtime@.flush == 0 ==> r is Ok,
    {
        if let Err(e) = self.runtime.rz_gate(q0, theta) {
            return Err(EmulatorError::Runtime(e));
        }
        self.finish_call(UserCall::RZ(q0, theta))
    }

    /// Queues a reset, then drains.
    pub fn user_issued_reset(&mut self, q0: u64) -> (r: Result<(), EmulatorError>)
        requires
            old(self).wf(),
        ensures
            final(self).wf(),
            q0 >= old(self).runtime@.qubits.len() ==> r == Err::<(), _>(
                EmulatorError::Runtime(RuntimeError::QubitOutOfRange(q0)),
            ) && final(self).runtime@ == old(self).runtime@,
            r is Ok ==> enqueued_then_drained(
                old(self).runtime@,
                final(self).runtime@,
                Operation::Reset { qubit_id: q0 },
            ),
            q0 < old(self).runtime@.qubits.len() && old(self).runtime@.flush == 0 ==> r is Ok,
    {
        let ghost v0 = self.runtime@;
        if let Err(e) = self.runtime.reset(q0) {
            return Err(EmulatorError::Runtime(e));
        }
        let ghost v1 = self.runtime@;
        let r = self.finish_call(UserCall::Reset(q0));
        proof {
            if r is Ok {
                lemma_enqueue_then_drain(v0, v1, self.runtime@, Operation::Reset { qubit_id: q0 });
            }
        }
        r
    }

    fn lazy_measure_with(&mut self, q0: u64, leaked: bool) -> (r: Result<u64, EmulatorError>)
        requires
            old(self).wf(),
        ensures
            final(self).wf(),
            measure_then_drained(old(self).runtime@, final(self).runtime@, q0, r, leaked),
    {
        let ghost v0 = self.runtime@;
        let m = if leaked {
            self.runtime.measure_leaked(q0)
        } else {
            self.runtime.measure(q0)
        };
        let result_id = match m {
            Ok(id) => id,
            Err(e) => return Err(EmulatorError::Runtime(e)),
        };
        let ghost v1 = self.runtime@;
        let call = if leaked {
            UserCall::MeasureLeakedRequest(q0)
        } else {
            UserCall::MeasureRequest(q0)
        };
        match self.finish_call(call) {
            Ok(()) => {
                proof {
                    let new = self.runtime@;
                    assert(v1.queue.len() == v0.queue.len() + 1);
                    assert(v1.flush == v0.flush);
                    assert(new.queue == v1.queue.subrange(v1.flush as int, v1.queue.len() as int));
                    assert(new.queue.last() == v1.queue.last());
                    assert(v1.queue.subrange(0, v0.queue.len() as int) == v0.queue);
                    assert(new.queue.subrange(0, new.queue.len() - 1) =~= v0.queue.subrange(
                        v0.flush as int,
                        v0.queue.len() as int,
                    ));
                }
                Ok(result_id)
            },
            Err(e) => Err(e),
        }
    }

    /// Creates a future for measuring `q0` and queues the measurement; returns the
    /// future's id without waiting for its value.
    pub fn user_issued_lazy_measure(&mut self, q0: u64) -> (r: Result<u64, EmulatorError>)
        requires
            old(self).wf(),
        ensures
            final(self).wf(),
            measure_then_drained(old(self).runtime@, final(self).runtime@, q0, r, false),
    {
        self.lazy_measure_with(q0, false)
    }

    /// As `user_issued_lazy_measure`, for a measurement that reports leakage.
    pub fn user_issued_lazy_measure_leaked(&mut self, q0: u64) -> (r: Result<u64, EmulatorError>)
        requires
            old(self).wf(),
        ensures
            final(self).wf(),
            measure_then_drained(old(self).runtime@, final(self).runtime@, q0, r, true),
    {
        self.lazy_measure_with(q0, true)
    }

    /// Measures `q0` and waits for the value.
    pub fn user_issued_eager_measure(&mut self, q0: u64) -> (r: Result<bool, EmulatorError>)
        requires
            old(self).wf(),
        ensures
            final(self).wf(),
            q0 >= old(self).runtime@.qubits.len() ==> r == Err::<bool, _>(
                EmulatorError::Runtime(RuntimeError::QubitOutOfRange(q0)),
            ),
            r matches Ok(v) ==> ({
                let id = old(self).runtime@.results.len() as int;
                &&& id < final(self).runtime@.results.len()
                &&& final(self).runtime@.results[id].measured
                &&& v == (final(self).runtime@.results[id].value != 0)
            }),
    {
        let result_id = match self.user_issued_lazy_measure(q0) {
            Ok(id) => id,
            Err(e) => return Err(e),
        };
        self.user_issued_read_future_bool(result_id)
    }

    /// Forwarded to the scheduler, which ignores reference counts; then drains.
    pub fn user_issued_increment_measurement_refcount(&mut self, result_id: u64) -> (r: Result<
        (),
        EmulatorError,
    >)
        requires
            old(self).wf(),
        ensures
            final(self).wf(),
            drain_frame(old(self).runtime@, final(self).runtime@),
            r is Ok ==> drained_from(old(self).runtime@, final(self).runtime@),
            old(self).runtime@.flush == 0 ==> r is Ok,
    {
        self.runtime.increment_future_refcount(result_id);
        self.process_runtime()
    }

    /// Forwarded to the scheduler, which ignores reference counts; then drains.
    pub fn user_issued_decrement_measurement_refcount(&mut self, result_id: u64) -> (r: Result<
        (),
        EmulatorError,
    >)
        requires
            old(self).wf(),
        ensures
            final(self).wf(),
            drain_frame(old(self).runtime@, final(self).runtime@),
            r is Ok ==> drained_from(old(self).runtime@, final(self).runtime@),
            old(self).runtime@.flush == 0 ==> r is Ok,
    {
        self.runtime.decrement_future_refcount(result_id);
        self.process_runtime()
    }

    /// Reads a future as a bit: at once when resolved; otherwise forces the batch
    /// that produces it, drains, and reads again.
    pub fn user_issued_read_future_bool(&mut self, result_id: u64) -> (r: Result<
        bool,
        EmulatorError,
    >)
        requires
            old(self).wf(),
        ensures
            final(self).wf(),
            read_future_post(old(self).runtime@, final(self).runtime@, result_id, bit_result(r), true),
    {
        self.event_hooks.on_user_call(&UserCall::FutureRead(result_id));
        match self.runtime.get_bool_result(result_id) {
            Err(e) => return Err(EmulatorError::Runtime(e)),
            Ok(Some(value)) => return Ok(value),
            Ok(None) => {},
        }
        if let Err(e) = self.runtime.force_result(result_id) {
            return Err(EmulatorError::Runtime(e));
        }
        let ghost forced = self.runtime@;
        let drained = self.process_runtime();
        let ghost dr = drained;
        match drained {
            Err(e) => return Err(e),
            Ok(()) => {},
        }
        proof {
            assert(dr is Ok);
            crate::runtime::lemma_producer_drained(forced.queue, result_id, forced.flush);
            assert(forced == forced_view(old(self).runtime@, result_id));
            let (k, rets) = choose|k: nat, rets: Seq<BatchResult>|
                #[trigger] drain_log(forced, self.runtime@, k, rets, dr);
            assert(drain_log(forced_view(old(self).runtime@, result_id), self.runtime@, k, rets, Ok(())));
        }
        match self.runtime.get_bool_result(result_id) {
            Ok(Some(value)) => Ok(value),
            _ => Err(EmulatorError::ResultUnavailable(result_id)),
        }
    }

    /// Reads a future as an integer: at once when resolved; otherwise forces the
    /// batch that produces it, drains, and reads again.
    pub fn user_issued_read_future_u64(&mut self, result_id: u64) -> (r: Result<
        u64,
        EmulatorError,
    >)
        requires
            old(self).wf(),
        ensures
            final(self).wf(),
            read_future_post(old(self).runtime@, final(self).runtime@, result_id, r, false),
    {
        self.event_hooks.on_user_call(&UserCall::FutureRead(result_id));
        match self.runtime.get_u64_result(result_id) {
            Err(e) => return Err(EmulatorError::Runtime(e)),
            Ok(Some(value)) => return Ok(value),
            Ok(None) => {},
        }
        if let Err(e) = self.runtime.force_result(result_id) {
            return Err(EmulatorError::Runtime(e));
        }
        let ghost forced = self.runtime@;
        let drained = self.process_runtime();
        let ghost dr = drained;
        match drained {
            Err(e) => return Err(e),
            Ok(()) => {},
        }
        proof {
            assert(dr is Ok);
            crate::runtime::lemma_producer_drained(forced.queue, result_id, forced.flush);
            assert(forced == forced_view(old(self).runtime@, result_id));
            let (k, rets) = choose|k: nat, rets: Seq<BatchResult>|
                #[trigger] drain_log(forced, self.runtime@, k, rets, dr);
            assert(drain_log(forced_view(old(self).runtime@, result_id), self.runtime@, k, rets, Ok(())));
        }
        match self.runtime.get_u64_result(result_id) {
            Ok(Some(value)) => Ok(value),
            _ => Err(EmulatorError::ResultUnavailable(result_id)),
        }
    }

    /// Queues a custom operation, then drains; returns the scheduler's answer.
    pub fn custom_runtime_call(&mut self, tag: u64, data: &[u8]) -> (r: Result<u64, EmulatorError>)
        requires
            old(self).wf(),
        ensures
            final(self).wf(),
            r matches Ok(v) ==> v == 0,
            r is Ok ==> ({
                let new = final(self).runtime@;
                let old = old(self).runtime@;
                &&& new.flush == 0
                &&& new.queue.len() == old.queue.len() - old.flush + 1
                &&& new.queue.subrange(0, new.queue.len() - 1) == old.queue.subrange(
                    old.flush as int,
                    old.queue.len() as int,
                )
                &&& new.queue.last().ops@.len() == 1
                &&& new.queue.last().ops@[0] matches Operation::Custom { custom_tag: t, data: d }
                    && t == tag && d@ == data@
            }),
            old(self).runtime@.flush == 0 ==> r is Ok,
    {
        let ghost v0 = self.runtime@;
        let result = self.runtime.custom_call(tag, data);
        let ghost v1 = self.runtime@;
        match self.process_runtime() {
            Ok(()) => {
                proof {
                    let new = self.runtime@;
                    assert(new.queue == v1.queue.subrange(v1.flush as int, v1.queue.len() as int));
                    assert(new.queue.last() == v1.queue.last());
                    assert(v1.queue.subrange(0, v0.queue.len() as int) == v0.queue);
                    assert(new.queue.subrange(0, new.queue.len() - 1) =~= v0.queue.subrange(
                        v0.flush as int,
                        v0.queue.len() as int,
                    ));
                }
                Ok(result)
            },
            Err(e) => Err(e),
        }
    }
}

} // verus!