//! One step of a circuit: an operation and the bits it acts on.

use vstd::prelude::*;

verus! {

/// An operation, and the indices of the quantum and of the classical bits
/// that it acts on.
///
/// What an operation is, is left to whoever makes the instruction: a handle
/// into a pool of operations, or the operation itself.
#[derive(Debug, PartialEq, Clone)]
pub struct CircuitInstruction<Operation> {
    operation: Operation,
    qubits: Vec<usize>,
    clbits: Vec<usize>,
}

impl<Operation> CircuitInstruction<Operation> {
    /// The operation.
    pub closed spec fn spec_operation(&self) -> Operation {
        self.operation
    }

    /// The indices of the quantum bits.
    pub closed spec fn spec_qubits(&self) -> Seq<usize> {
        self.qubits@
    }

    /// The indices of the classical bits.
    pub closed spec fn spec_clbits(&self) -> Seq<usize> {
        self.clbits@
    }

    pub fn new(operation: Operation, qubits: Vec<usize>, clbits: Vec<usize>) -> (instruction: Self)
        ensures
            instruction.spec_operation() == operation,
            instruction.spec_qubits() == qubits@,
            instruction.spec_clbits() == clbits@,
    {
        Self { operation, qubits, clbits }
    }

    /// The operation of the instruction.
    pub fn operation(&self) -> (operation: &Operation)
        ensures
            *operation == self.spec_operation(),
    {
        &self.operation
    }

    /// The indices of the quantum bits that the instruction acts on.
    pub fn qubits(&self) -> (qubits: &Vec<usize>)
        ensures
            qubits@ == self.spec_qubits(),
    {
        &self.qubits
    }

    /// The indices of the classical bits that the instruction acts on.
    pub fn clbits(&self) -> (clbits: &Vec<usize>)
        ensures
            clbits@ == self.spec_clbits(),
    {
        &self.clbits
    }
}

} // verus!
