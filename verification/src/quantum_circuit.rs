//! Circuits, and the reading of their written form.

pub mod parser;
pub mod text;
pub mod tokenizer;

use crate::bit::{has_clbit, has_qubit, insert_clbit, insert_qubit, Clbit, Qubit};
use crate::circuit_instruction::CircuitInstruction;
use vstd::prelude::*;

verus! {

/// A circuit: its instructions in order, and the quantum and the classical
/// bits that it acts on, each bit once.
pub struct QuantumCircuit<Operation> {
    instr: Vec<CircuitInstruction<Operation>>,
    qubits: Vec<Qubit>,
    clbits: Vec<Clbit>,
}

impl<Operation> QuantumCircuit<Operation> {
    /// The instructions, in order.
    pub closed spec fn instructions(&self) -> Seq<CircuitInstruction<Operation>> {
        self.instr@
    }

    /// The quantum bits, in the order they were added.
    pub closed spec fn qubits(&self) -> Seq<Qubit> {
        self.qubits@
    }

    /// The classical bits, in the order they were added.
    pub closed spec fn clbits(&self) -> Seq<Clbit> {
        self.clbits@
    }

    /// The circuit of the given instructions and bits.
    pub fn from_parts(
        instr: Vec<CircuitInstruction<Operation>>,
        qubits: Vec<Qubit>,
        clbits: Vec<Clbit>,
    ) -> (circuit: Self)
        ensures
            circuit.instructions() == instr@,
            circuit.qubits() == qubits@,
            circuit.clbits() == clbits@,
    {
        QuantumCircuit { instr, qubits, clbits }
    }

    pub fn get_instructions(&self) -> (instructions: &Vec<CircuitInstruction<Operation>>)
        ensures
            instructions@ == self.instructions(),
    {
        &self.instr
    }

    pub fn get_qubits(&self) -> (qubits: &Vec<Qubit>)
        ensures
            qubits@ == self.qubits(),
    {
        &self.qubits
    }

    pub fn get_clbits(&self) -> (clbits: &Vec<Clbit>)
        ensures
            clbits@ == self.clbits(),
    {
        &self.clbits
    }

    /// Adds `qubit` to the quantum bits of the circuit, unless a bit of its
    /// name and index is among them already. Nothing else changes.
    pub fn add_qubit(&mut self, qubit: Qubit)
        ensures
            final(self).qubits() == if has_qubit(old(self).qubits(), qubit) {
                old(self).qubits()
            } else {
                old(self).qubits().push(qubit)
            },
            final(self).clbits() == old(self).clbits(),
            final(self).instructions() == old(self).instructions(),
    {
        insert_qubit(&mut self.qubits, qubit);
    }

    /// Adds `clbit` to the classical bits of the circuit, unless a bit of its
    /// name and index is among them already. Nothing else changes.
    pub fn add_clbit(&mut self, clbit: Clbit)
        ensures
            final(self).clbits() == if has_clbit(old(self).clbits(), clbit) {
                old(self).clbits()
            } else {
                old(self).clbits().push(clbit)
            },
            final(self).qubits() == old(self).qubits(),
            final(self).instructions() == old(self).instructions(),
    {
        insert_clbit(&mut self.clbits, clbit);
    }
}

} // verus!
