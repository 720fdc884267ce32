use vstd::prelude::*;

use crate::time::Instant;

verus! {

/// A rotation angle held as a fraction of a full turn, in units of 2^-64 turns.
///
/// Adding and subtracting angles wraps around the full turn, so arithmetic on
/// angles is exact modulo 2π.
#[derive(Debug, Clone, Copy, PartialEq, Eq, Structural)]
pub struct Angle(pub u64);

/// `a + b` modulo a full turn.
pub open spec fn angle_add(a: Angle, b: Angle) -> Angle {
    Angle(((a.0 as int + b.0 as int) % 0x1_0000_0000_0000_0000) as u64)
}

/// `a - b` modulo a full turn.
pub open spec fn angle_sub(a: Angle, b: Angle) -> Angle {
    Angle(((a.0 as int - b.0 as int) % 0x1_0000_0000_0000_0000) as u64)
}

impl Angle {
    /// The zero angle.
    pub fn zero() -> (r: Angle)
        ensures
            r == Angle(0),
    {
        Angle(0)
    }

    /// The sum of two angles modulo a full turn.
    pub fn plus(self, other: Angle) -> (r: Angle)
        ensures
            r == angle_add(self, other),
    {
        Angle(self.0.wrapping_add(other.0))
    }

    /// The difference of two angles modulo a full turn.
    pub fn minus(self, other: Angle) -> (r: Angle)
        ensures
            r == angle_sub(self, other),
    {
        Angle(self.0.wrapping_sub(other.0))
    }
}

/// One quantum operation, as handed to the error model.
#[derive(Debug, Clone)]
pub enum Operation {
    RXYGate { qubit_id: u64, theta: Angle, phi: Angle },
    RZGate { qubit_id: u64, theta: Angle },
    RZZGate { qubit_id_1: u64, qubit_id_2: u64, theta: Angle },
    Measure { qubit_id: u64, result_id: u64 },
    MeasureLeaked { qubit_id: u64, result_id: u64 },
    Reset { qubit_id: u64 },
    Custom { custom_tag: u64, data: Vec<u8> },
}

/// Whether `op` acts on any qubit of `qubits`.
pub open spec fn op_touches(op: Operation, qubits: Seq<u64>) -> bool {
    match op {
        Operation::RXYGate { qubit_id, .. } => qubits.contains(qubit_id),
        Operation::RZGate { qubit_id, .. } => qubits.contains(qubit_id),
        Operation::RZZGate { qubit_id_1, qubit_id_2, .. } => qubits.contains(qubit_id_1)
            || qubits.contains(qubit_id_2),
        Operation::Measure { qubit_id, .. } => qubits.contains(qubit_id),
        Operation::MeasureLeaked { qubit_id, .. } => qubits.contains(qubit_id),
        Operation::Reset { qubit_id } => qubits.contains(qubit_id),
        Operation::Custom { .. } => false,
    }
}

/// Whether `op` is the measurement that produces result `result_id`.
pub open spec fn op_produces(op: Operation, result_id: u64) -> bool {
    match op {
        Operation::Measure { result_id: r, .. } => r == result_id,
        Operation::MeasureLeaked { result_id: r, .. } => r == result_id,
        _ => false,
    }
}

/// An ordered group of operations sharing one emission time.
#[derive(Debug, Clone)]
pub struct BatchOperation {
    pub ops: Vec<Operation>,
    pub start: Instant,
    pub metadata: Vec<u8>,
}

impl BatchOperation {
    /// Whether some operation of the batch acts on a qubit of `qubits`.
    pub open spec fn touches(&self, qubits: Seq<u64>) -> bool {
        exists|j: int| 0 <= j < self.ops@.len() && op_touches(#[trigger] self.ops@[j], qubits)
    }

    /// Whether some operation of the batch produces result `result_id`.
    pub open spec fn produces(&self, result_id: u64) -> bool {
        exists|j: int| 0 <= j < self.ops@.len() && op_produces(#[trigger] self.ops@[j], result_id)
    }

    /// A batch of the one operation `op`.
    pub fn single(op: Operation, start: Instant) -> (r: BatchOperation)
        ensures
            r.ops@ == seq![op],
            r.start == start,
            r.metadata@.len() == 0,
    {
        BatchOperation { ops: vec![op], start, metadata: Vec::new() }
    }
}

fn slice_contains(qubits: &[u64], q: u64) -> (r: bool)
    ensures
        r == qubits@.contains(q),
{
    let mut i: usize = 0;
    while i < qubits.len()
        invariant
            i <= qubits@.len(),
            forall|k: int| 0 <= k < i ==> qubits@[k] != q,
        decreases qubits@.len() - i,
    {
        if qubits[i] == q {
            return true;
        }
        i += 1;
    }
    false
}

/// Whether `op` acts on any qubit of `qubits`.
pub fn operation_touches(op: &Operation, qubits: &[u64]) -> (r: bool)
    ensures
        r == op_touches(*op, qubits@),
{
    match op {
        Operation::RXYGate { qubit_id, .. } => slice_contains(qubits, *qubit_id),
        Operation::RZGate { qubit_id, .. } => slice_contains(qubits, *qubit_id),
        Operation::RZZGate { qubit_id_1, qubit_id_2, .. } => slice_contains(qubits, *qubit_id_1)
            || slice_contains(qubits, *qubit_id_2),
        Operation::Measure { qubit_id, .. } => slice_contains(qubits, *qubit_id),
        Operation::MeasureLeaked { qubit_id, .. } => slice_contains(qubits, *qubit_id),
        Operation::Reset { qubit_id } => slice_contains(qubits, *qubit_id),
        Operation::Custom { .. } => false,
    }
}

/// Whether some operation of `batch` acts on a qubit of `qubits`.
pub fn batch_touches(batch: &BatchOperation, qubits: &[u64]) -> (r: bool)
    ensures
        r == batch.touches(qubits@),
{
    let mut j: usize = 0;
    while j < batch.ops.len()
        invariant
            j <= batch.ops@.len(),
            forall|k: int| 0 <= k < j ==> !op_touches(#[trigger] batch.ops@[k], qubits@),
        decreases batch.ops@.len() - j,
    {
        if operation_touches(&batch.ops[j], qubits) {
            return true;
        }
        j += 1;
    }
    false
}

/// Whether some operation of `batch` is the measurement producing `result_id`.
pub fn batch_produces(batch: &BatchOperation, result_id: u64) -> (r: bool)
    ensures
        r == batch.produces(result_id),
{
    let mut j: usize = 0;
    while j < batch.ops.len()
        invariant
            j <= batch.ops@.len(),
            forall|k: int| 0 <= k < j ==> !op_produces(#[trigger] batch.ops@[k], result_id),
        decreases batch.ops@.len() - j,
    {
        let hit = match &batch.ops[j] {
            Operation::Measure { result_id: r, .. } => *r == result_id,
            Operation::MeasureLeaked { result_id: r, .. } => *r == result_id,
            _ => false,
        };
        if hit {
            return true;
        }
        j += 1;
    }
    false
}

} // verus!
