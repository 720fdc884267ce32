use selene::emulator::{Emulator, EmulatorError, EventHook, UserCall};
use selene::encoder::{OutputStream, OutputStreamError};
use selene::error_model::{BatchResult, ErrorModelInterface, PluginError};
use selene::operation::{Angle, BatchOperation, Operation};
use selene::runtime::{RuntimeError, SimpleRuntime};
use selene::time::Instant;
use selene::utils::Metric;

/// Answers every measurement with `true` (leaked measurements with 2) and logs batches.
struct StubModel {
    log: Vec<BatchOperation>,
    answer: bool,
}

impl ErrorModelInterface for StubModel {
    fn exit(&mut self) -> Result<(), PluginError> {
        Ok(())
    }
    fn shot_start(&mut self, _a: u64, _b: u64, _c: u64) -> Result<(), PluginError> {
        Ok(())
    }
    fn shot_end(&mut self) -> Result<(), PluginError> {
        Ok(())
    }
    fn dump_simulator_state(&mut self, _file: &str, _qubits: &[u64]) -> Result<(), PluginError> {
        Err(PluginError::Other("unsupported".to_string()))
    }
    fn handle_operations(&mut self, operations: BatchOperation) -> Result<BatchResult, PluginError> {
        let mut res = BatchResult::new();
        if self.answer {
            for op in operations.ops.iter() {
                match op {
                    Operation::Measure { result_id, .. } => res.set_bool_result(*result_id, true),
                    Operation::MeasureLeaked { result_id, .. } => res.set_u64_result(*result_id, 2),
                    _ => {}
                }
            }
        }
        self.log.push(operations);
        Ok(res)
    }
    fn get_metric(&mut self, _n: u8) -> Result<Option<Metric>, PluginError> {
        Ok(None)
    }
    fn get_simulator_metric(&mut self, _n: u8) -> Result<Option<Metric>, PluginError> {
        Ok(None)
    }
}

#[derive(Default)]
struct CountingHook {
    user_calls: usize,
    batches: usize,
}

impl EventHook for CountingHook {
    fn on_user_call(&mut self, _call: &UserCall) {
        self.user_calls += 1;
    }
    fn on_runtime_batch(&mut self, _batch: &BatchOperation) {
        self.batches += 1;
    }
    fn on_shot_start(&mut self, _shot_id: u64) {}
    fn on_shot_end(&mut self) {}
    fn write(&mut self, _t: u64, _e: &mut OutputStream) -> Result<(), OutputStreamError> {
        Ok(())
    }
}

fn emulator(n: u64, answer: bool) -> Emulator<StubModel, CountingHook> {
    Emulator {
        runtime: SimpleRuntime::new(n, Instant(0)),
        error_model: StubModel { log: Vec::new(), answer },
        event_hooks: CountingHook::default(),
    }
}

#[test]
fn lazy_measure_then_read_forces_and_drains() {
    let mut em = emulator(1, true);
    let q = em.user_issued_qalloc().unwrap();
    assert_eq!(q, 0);
    // an h gate: rxy(pi/2, pi/2)
    em.user_issued_rxy(0, Angle(1u64 << 62), Angle(1u64 << 62)).unwrap();
    let r = em.user_issued_lazy_measure(0).unwrap();
    assert!(em.error_model.log.is_empty());
    let v = em.user_issued_read_future_bool(r).unwrap();
    assert!(v);
    assert_eq!(em.error_model.log.len(), 2);
    assert_eq!(em.runtime.queue_len(), 0);
    assert_eq!(em.event_hooks.batches, 2);
    assert_eq!(em.event_hooks.user_calls, 4);
    // a second read is served from the table
    assert_eq!(em.user_issued_read_future_bool(r).unwrap(), true);
    assert_eq!(em.error_model.log.len(), 2);
}

#[test]
fn read_fails_when_model_reports_nothing() {
    let mut em = emulator(1, false);
    em.user_issued_qalloc().unwrap();
    let r = em.user_issued_lazy_measure(0).unwrap();
    assert!(matches!(em.user_issued_read_future_bool(r), Err(EmulatorError::ResultUnavailable(0))));
    assert!(matches!(
        em.user_issued_read_future_bool(r),
        Err(EmulatorError::Runtime(RuntimeError::ResultNotFound(0)))
    ));
    assert!(matches!(
        em.user_issued_read_future_u64(3),
        Err(EmulatorError::Runtime(RuntimeError::ResultOutOfRange(3)))
    ));
}

#[test]
fn leaked_measure_reads_as_integer() {
    let mut em = emulator(1, true);
    em.user_issued_qalloc().unwrap();
    let r = em.user_issued_lazy_measure_leaked(0).unwrap();
    assert_eq!(em.user_issued_read_future_u64(r).unwrap(), 2);
}

#[test]
fn eager_measure_and_barriers() {
    let mut em = emulator(2, true);
    em.user_issued_qalloc().unwrap();
    em.user_issued_qalloc().unwrap();
    em.user_issued_rz(1, Angle(5)).unwrap();
    em.user_issued_rxy(1, Angle(1), Angle(5)).unwrap();
    em.user_issued_rxy(0, Angle(1), Angle(0)).unwrap();
    em.user_issued_local_barrier(&[1], 0).unwrap();
    assert_eq!(em.error_model.log.len(), 1);
    assert!(matches!(em.error_model.log[0].ops[0], Operation::RXYGate { qubit_id: 1, phi: Angle(0), .. }));
    assert_eq!(em.runtime.queue_len(), 1);
    assert!(em.user_issued_eager_measure(1).unwrap());
    assert_eq!(em.runtime.queue_len(), 0);
    em.user_issued_reset(0).unwrap();
    em.user_issued_rzz(0, 1, Angle(3)).unwrap();
    em.user_issued_global_barrier(0).unwrap();
    assert_eq!(em.runtime.queue_len(), 0);
    assert_eq!(em.error_model.log.len(), 5);
    em.user_issued_qfree(1).unwrap();
    assert!(matches!(
        em.user_issued_rxy(1, Angle(0), Angle(0)),
        Err(EmulatorError::Runtime(RuntimeError::InactiveQubit(1)))
    ));
    assert!(matches!(
        em.user_issued_qfree(4),
        Err(EmulatorError::Runtime(RuntimeError::QubitOutOfRange(4)))
    ));
    assert_eq!(em.custom_runtime_call(1, &[9]).unwrap(), 0);
    em.user_issued_increment_measurement_refcount(0).unwrap();
    em.user_issued_decrement_measurement_refcount(0).unwrap();
    em.poke().unwrap();
}

#[test]
fn dump_state_drains_then_asks_model() {
    let mut em = emulator(1, true);
    em.user_issued_qalloc().unwrap();
    em.user_issued_reset(0).unwrap();
    assert!(matches!(em.dump_quantum_state("f", &[0]), Err(EmulatorError::Plugin(_))));
    assert_eq!(em.runtime.queue_len(), 0);
    assert_eq!(em.error_model.log.len(), 1);
}

#[test]
fn nothing_eligible_means_no_plugin_call() {
    let mut em = emulator(1, true);
    em.user_issued_qalloc().unwrap();
    em.user_issued_rxy(0, Angle(1), Angle(2)).unwrap();
    em.user_issued_lazy_measure(0).unwrap();
    em.poke().unwrap();
    assert!(em.error_model.log.is_empty());
    assert_eq!(em.runtime.queue_len(), 2);
    assert_eq!(em.event_hooks.batches, 0);
}
