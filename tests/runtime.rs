use selene::error_model::BatchResult;
use selene::operation::{Angle, Operation};
use selene::runtime::{QubitStatus, RuntimeError, SimpleRuntime};
use selene::time::Instant;

fn fresh(n: u64) -> SimpleRuntime {
    SimpleRuntime::new(n, Instant(0))
}

#[test]
fn qalloc_hands_out_ids_then_sentinel() {
    let mut rt = fresh(3);
    assert_eq!(rt.qalloc(), 0);
    assert_eq!(rt.qubit_status(0), Some(QubitStatus::Active { phase: Angle(0) }));
    assert_eq!(rt.qalloc(), 1);
    assert_eq!(rt.qalloc(), 2);
    assert_eq!(rt.qalloc(), u64::MAX);
    assert_eq!(rt.qalloc(), u64::MAX);
}

#[test]
fn qfree_returns_qubit_to_pool() {
    let mut rt = fresh(2);
    assert_eq!(rt.qalloc(), 0);
    assert_eq!(rt.qalloc(), 1);
    assert_eq!(rt.qfree(0), Ok(()));
    assert_eq!(rt.qubit_status(0), Some(QubitStatus::Free));
    assert_eq!(rt.qalloc(), 0);
    assert_eq!(rt.qfree(2), Err(RuntimeError::QubitOutOfRange(2)));
}

#[test]
fn gates_check_range_and_activity() {
    let mut rt = fresh(2);
    assert_eq!(rt.rxy_gate(5, Angle(1), Angle(2)), Err(RuntimeError::QubitOutOfRange(5)));
    assert_eq!(rt.rxy_gate(0, Angle(1), Angle(2)), Err(RuntimeError::InactiveQubit(0)));
    assert_eq!(rt.rz_gate(1, Angle(1)), Err(RuntimeError::InactiveQubit(1)));
    assert_eq!(rt.rz_gate(2, Angle(1)), Err(RuntimeError::QubitOutOfRange(2)));
    assert_eq!(rt.rzz_gate(0, 3, Angle(1)), Err(RuntimeError::QubitOutOfRange(3)));
    assert_eq!(rt.rzz_gate(4, 0, Angle(1)), Err(RuntimeError::QubitOutOfRange(4)));
    // rzz does not need active qubits
    assert_eq!(rt.rzz_gate(0, 1, Angle(1)), Ok(()));
    assert_eq!(rt.reset(9), Err(RuntimeError::QubitOutOfRange(9)));
    assert_eq!(rt.measure(9), Err(RuntimeError::QubitOutOfRange(9)));
    assert_eq!(rt.queue_len(), 1);
}

#[test]
fn nothing_is_ready_before_a_barrier() {
    let mut rt = fresh(1);
    rt.qalloc();
    rt.rxy_gate(0, Angle(1), Angle(0)).unwrap();
    assert!(rt.get_next_operations().is_none());
    rt.global_barrier(0);
    assert_eq!(rt.flush_size(), 1);
    let b = rt.get_next_operations().unwrap();
    assert_eq!(b.ops.len(), 1);
    assert!(matches!(b.ops[0], Operation::RXYGate { qubit_id: 0, theta: Angle(1), phi: Angle(0) }));
    assert!(rt.get_next_operations().is_none());
    assert_eq!(rt.queue_len(), 0);
}

#[test]
fn rz_is_folded_into_next_rxy() {
    let mut rt = fresh(1);
    rt.qalloc();
    rt.rz_gate(0, Angle(100)).unwrap();
    assert_eq!(rt.queue_len(), 0);
    rt.rxy_gate(0, Angle(7), Angle(1000)).unwrap();
    rt.global_barrier(0);
    let b = rt.get_next_operations().unwrap();
    match &b.ops[0] {
        Operation::RXYGate { qubit_id, theta, phi } => {
            assert_eq!(*qubit_id, 0);
            assert_eq!(*theta, Angle(7));
            assert_eq!(*phi, Angle(900));
        }
        _ => panic!("expected an rxy gate"),
    }
}

#[test]
fn rz_folding_wraps_around_full_turn() {
    // pi/2 is a quarter turn: 2^62; phi = 0 minus pi/2 is three quarters of a turn.
    let mut rt = fresh(1);
    rt.qalloc();
    rt.rz_gate(0, Angle(1u64 << 62)).unwrap();
    rt.rxy_gate(0, Angle(1u64 << 63), Angle(0)).unwrap();
    rt.global_barrier(0);
    let b = rt.get_next_operations().unwrap();
    assert!(matches!(b.ops[0], Operation::RXYGate { phi: Angle(p), .. } if p == 3u64 << 62));
}

#[test]
fn local_barrier_flushes_up_to_last_use() {
    let mut rt = fresh(3);
    rt.qalloc();
    rt.qalloc();
    rt.qalloc();
    rt.rxy_gate(0, Angle(1), Angle(0)).unwrap(); // 0
    rt.rxy_gate(1, Angle(1), Angle(0)).unwrap(); // 1
    rt.rzz_gate(0, 2, Angle(1)).unwrap(); // 2
    rt.rxy_gate(1, Angle(1), Angle(0)).unwrap(); // 3
    rt.local_barrier(&[2], 0);
    assert_eq!(rt.flush_size(), 3);
    // no match past the cursor: no change
    rt.local_barrier(&[2], 0);
    assert_eq!(rt.flush_size(), 3);
    rt.local_barrier(&[7], 0);
    assert_eq!(rt.flush_size(), 3);
    rt.local_barrier(&[1], 0);
    assert_eq!(rt.flush_size(), 4);
}

#[test]
fn local_barrier_is_monotonic_and_idempotent() {
    let mut rt = fresh(2);
    rt.qalloc();
    rt.qalloc();
    rt.rxy_gate(0, Angle(1), Angle(0)).unwrap();
    rt.rxy_gate(1, Angle(1), Angle(0)).unwrap();
    rt.global_barrier(0);
    assert_eq!(rt.flush_size(), 2);
    rt.rxy_gate(1, Angle(1), Angle(0)).unwrap();
    rt.local_barrier(&[0], 0);
    assert_eq!(rt.flush_size(), 2);
    rt.local_barrier(&[0], 0);
    assert_eq!(rt.flush_size(), 2);
    rt.local_barrier(&[1], 0);
    assert_eq!(rt.flush_size(), 3);
    rt.local_barrier(&[1], 0);
    assert_eq!(rt.flush_size(), 3);
}

#[test]
fn force_result_makes_producer_eligible() {
    let mut rt = fresh(2);
    rt.qalloc();
    rt.qalloc();
    rt.rxy_gate(1, Angle(1), Angle(0)).unwrap();
    let r = rt.measure(0).unwrap();
    assert_eq!(r, 0);
    rt.rxy_gate(1, Angle(1), Angle(0)).unwrap();
    assert_eq!(rt.force_result(r), Ok(()));
    assert_eq!(rt.flush_size(), 2);
    assert_eq!(rt.get_bool_result(r), Ok(None));
    rt.get_next_operations().unwrap();
    let b = rt.get_next_operations().unwrap();
    assert!(matches!(b.ops[0], Operation::Measure { qubit_id: 0, result_id: 0 }));
    rt.set_bool_result(r, true).unwrap();
    assert_eq!(rt.get_bool_result(r), Ok(Some(true)));
    assert_eq!(rt.get_u64_result(r), Ok(Some(1)));
    // the producing batch is gone now
    assert_eq!(rt.force_result(r), Err(RuntimeError::ResultNotFound(0)));
    assert_eq!(rt.force_result(5), Err(RuntimeError::ResultOutOfRange(5)));
}

#[test]
fn force_result_never_lowers_the_cursor() {
    let mut rt = fresh(1);
    rt.qalloc();
    let r = rt.measure(0).unwrap();
    rt.reset(0).unwrap();
    rt.global_barrier(0);
    assert_eq!(rt.force_result(r), Ok(()));
    assert_eq!(rt.flush_size(), 2);
}

#[test]
fn measure_leaked_and_u64_results() {
    let mut rt = fresh(1);
    let a = rt.measure(0).unwrap();
    let b = rt.measure_leaked(0).unwrap();
    assert_eq!((a, b), (0, 1));
    assert_eq!(rt.set_u64_result(b, 2), Ok(()));
    assert_eq!(rt.get_u64_result(b), Ok(Some(2)));
    assert_eq!(rt.get_u64_result(a), Ok(None));
    assert_eq!(rt.set_u64_result(2, 2), Err(RuntimeError::ResultOutOfRange(2)));
    assert_eq!(rt.get_bool_result(7), Err(RuntimeError::ResultOutOfRange(7)));
    rt.force_result(b).unwrap();
    rt.get_next_operations().unwrap();
    let last = rt.get_next_operations().unwrap();
    assert!(matches!(last.ops[0], Operation::MeasureLeaked { qubit_id: 0, result_id: 1 }));
}

#[test]
fn shot_end_resets_everything() {
    let mut rt = fresh(2);
    rt.qalloc();
    rt.measure(0).unwrap();
    rt.global_barrier(0);
    rt.shot_end();
    assert_eq!(rt.queue_len(), 0);
    assert_eq!(rt.flush_size(), 0);
    assert_eq!(rt.qubit_status(0), Some(QubitStatus::Free));
    assert_eq!(rt.get_bool_result(0), Err(RuntimeError::ResultOutOfRange(0)));
    assert_eq!(rt.n_qubits(), 2);
    rt.qalloc();
    rt.shot_start(1, 1);
    assert_eq!(rt.qubit_status(0), Some(QubitStatus::Free));
    rt.exit();
    assert_eq!(rt.n_qubits(), 0);
}

#[test]
fn custom_call_queues_data() {
    let mut rt = fresh(1);
    assert_eq!(rt.custom_call(9, &[1, 2, 3]), 0);
    rt.global_barrier(0);
    let b = rt.get_next_operations().unwrap();
    match &b.ops[0] {
        Operation::Custom { custom_tag, data } => {
            assert_eq!(*custom_tag, 9);
            assert_eq!(data, &vec![1u8, 2, 3]);
        }
        _ => panic!("expected a custom operation"),
    }
    assert_eq!(b.start, Instant(0));
}

#[test]
fn apply_results_writes_in_order_and_stops_at_unknown_id() {
    let mut rt = fresh(1);
    rt.measure(0).unwrap();
    rt.measure(0).unwrap();
    let mut res = BatchResult::new();
    res.set_bool_result(0, true);
    res.set_u64_result(1, 2);
    assert_eq!(rt.apply_results(&res), Ok(()));
    assert_eq!(rt.get_bool_result(0), Ok(Some(true)));
    assert_eq!(rt.get_u64_result(1), Ok(Some(2)));
    let mut bad = BatchResult::new();
    bad.set_bool_result(1, false);
    bad.set_bool_result(9, true);
    bad.set_bool_result(0, false);
    assert_eq!(rt.apply_results(&bad), Err(RuntimeError::ResultOutOfRange(9)));
    assert_eq!(rt.get_u64_result(1), Ok(Some(0)));
    assert_eq!(rt.get_bool_result(0), Ok(Some(true)));
}
