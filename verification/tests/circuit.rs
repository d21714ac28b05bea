use circuit_pool::bit::{
    clbit_indices, insert_clbit, insert_qubit, qubit_indices, BitOps, Clbit, Qubit,
};
use circuit_pool::circuit_instruction::CircuitInstruction;
use circuit_pool::operations::{Barrier, Measurement, TimeUnit};
use circuit_pool::quantum_circuit::QuantumCircuit;

fn qubit(name: &str, index: usize) -> Qubit {
    Qubit::new(name.to_string(), index)
}

fn clbit(name: &str, index: usize) -> Clbit {
    Clbit::new(name.to_string(), index)
}

#[test]
fn an_instruction_gives_back_its_operation_and_bits() {
    let instruction = CircuitInstruction::new("x".to_string(), vec![0, 2], vec![1]);
    assert_eq!(instruction.operation(), "x");
    assert_eq!(instruction.qubits(), &vec![0, 2]);
    assert_eq!(instruction.clbits(), &vec![1]);
    assert_eq!(instruction, instruction.clone());
    assert_ne!(instruction, CircuitInstruction::new("x".to_string(), vec![0], vec![1]));
}

#[test]
fn a_bit_is_added_once() {
    let mut qubits = vec![];
    insert_qubit(&mut qubits, qubit("q", 0));
    insert_qubit(&mut qubits, qubit("q", 1));
    insert_qubit(&mut qubits, qubit("q", 0));
    insert_qubit(&mut qubits, qubit("r", 0));
    assert!(qubits == vec![qubit("q", 0), qubit("q", 1), qubit("r", 0)]);
    assert_eq!(qubit_indices(&qubits), vec![0, 1, 0]);
    let mut clbits = vec![];
    insert_clbit(&mut clbits, clbit("c", 3));
    insert_clbit(&mut clbits, clbit("c", 3));
    insert_clbit(&mut clbits, clbit("c", 2));
    assert!(clbits == vec![clbit("c", 3), clbit("c", 2)]);
    assert_eq!(clbit_indices(&clbits), vec![3, 2]);
    assert!(qubit_indices(&vec![]).is_empty());
    assert!(clbit_indices(&vec![]).is_empty());
}

#[test]
fn a_circuit_keeps_each_bit_once() {
    let instruction = CircuitInstruction::new(Barrier {}, vec![0], vec![]);
    let mut circuit = QuantumCircuit::from_parts(vec![instruction.clone()], vec![qubit("q", 0)], vec![]);
    circuit.add_qubit(qubit("q", 0));
    circuit.add_qubit(qubit("q", 1));
    circuit.add_clbit(clbit("c", 0));
    circuit.add_clbit(clbit("c", 0));
    assert!(circuit.get_qubits() == &vec![qubit("q", 0), qubit("q", 1)]);
    assert!(circuit.get_clbits() == &vec![clbit("c", 0)]);
    assert_eq!(circuit.get_instructions(), &vec![instruction]);
}

#[test]
fn the_plain_kinds_of_operation_are_plain_values() {
    assert_eq!(TimeUnit::DT, TimeUnit::DT.clone());
    assert_eq!(Barrier {}, Barrier {});
    assert_eq!(Measurement {}, Measurement {}.clone());
}
