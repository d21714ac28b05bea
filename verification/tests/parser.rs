use circuit_pool::quantum_circuit::parser::{
    BitKind, ParseError, Parser, WrittenBit, WrittenInstruction, WrittenOperation,
};

fn parse(text: &str) -> Result<Vec<WrittenInstruction>, ParseError> {
    Parser::new(text.to_string()).parse()
}

fn gate(name: &str) -> WrittenOperation {
    WrittenOperation { name: name.to_string(), params: vec![] }
}

fn bit(kind: BitKind, register_size: &str, register_name: &str, index: &str) -> WrittenBit {
    WrittenBit {
        kind,
        register_size: register_size.to_string(),
        register_name: register_name.to_string(),
        index: index.to_string(),
    }
}

fn on_qubit(name: &str, register_size: &str, index: &str) -> WrittenInstruction {
    WrittenInstruction {
        operation: gate(name),
        qubits: vec![bit(BitKind::Qubit, register_size, "q", index)],
        clbits: vec![],
    }
}

/// Testing an X gate
#[test]
fn quantum_circuit_test_single_qubit_one_gate() {
    let input = "[CircuitInstruction(operation=Instruction(name='x', num_qubits=1, num_clbits=0, params=[]), qubits=(Qubit(QuantumRegister(1, 'q'), 0),), clbits=())]";

    let instructions = parse(input).unwrap();
    assert_eq!(instructions.len(), 1);

    let instr = instructions.get(0).unwrap();
    assert_eq!(instr, &on_qubit("x", "1", "0"));
}

/// Testing an X and Y gate
#[test]
fn quantum_circuit_test_single_qubit_two_gates() {
    let input = "[CircuitInstruction(operation=Instruction(name='x', num_qubits=1, num_clbits=0, params=[]), qubits=(Qubit(QuantumRegister(1, 'q'), 0),), clbits=()), CircuitInstruction(operation=Instruction(name='y', num_qubits=1, num_clbits=0, params=[]), qubits=(Qubit(QuantumRegister(1, 'q'), 0),), clbits=())]";

    let instructions = parse(input).unwrap();
    assert_eq!(instructions.len(), 2);

    let instr = instructions.get(0).unwrap();
    assert_eq!(instr, &on_qubit("x", "1", "0"));

    let instr = instructions.get(1).unwrap();
    assert_eq!(instr, &on_qubit("y", "1", "0"));
}

/// Testing an X gate
#[test]
fn quantumcircuit_test_single_qubit_one_gate() {
    let input = "[CircuitInstruction(operation=Instruction(name='x', num_qubits=1, num_clbits=0, params=[]), qubits=(Qubit(QuantumRegister(1, 'q'), 0),), clbits=())]";

    let instructions = parse(input).unwrap();
    assert_eq!(instructions.len(), 1);
}

#[test]
fn a_second_bit_in_a_group_is_in_the_way() {
    let input = "[CircuitInstruction(operation=Instruction(name='cx', num_qubits=2, num_clbits=0, params=[]), qubits=(Qubit(QuantumRegister(2, 'q'), 0), Qubit(QuantumRegister(2, 'q'), 1)), clbits=())]";
    assert_eq!(parse(input), Err(ParseError::Unexpected { at: 40 }));
}

#[test]
fn a_circuit_without_instructions_is_empty() {
    assert_eq!(parse("[]"), Ok(vec![]));
    assert_eq!(parse("["), Ok(vec![]));
    assert_eq!(parse("[ , = 'x' 1 ( ) ]"), Ok(vec![]));
    assert_eq!(parse("[] CircuitInstruction"), Ok(vec![]));
}

#[test]
fn a_circuit_starts_with_an_opening_bracket() {
    assert_eq!(parse(""), Err(ParseError::EndOfInput));
    assert_eq!(parse("]"), Err(ParseError::Unexpected { at: 0 }));
    assert_eq!(parse("CircuitInstruction"), Err(ParseError::Unexpected { at: 0 }));
}

#[test]
fn the_closing_bracket_may_be_missing() {
    let input = "[CircuitInstruction(operation=Instruction(name='h', num_qubits=1, num_clbits=0, params=[]), qubits=(Qubit(QuantumRegister(3, 'q'), 2),), clbits=())";
    assert_eq!(parse(input), Ok(vec![on_qubit("h", "3", "2")]));
}

#[test]
fn what_follows_the_closing_bracket_is_not_read() {
    let mut parser = Parser::new("[] [CircuitInstruction".to_string());
    assert_eq!(parser.parse(), Ok(vec![]));
    assert_eq!(parser.parse(), Err(ParseError::EndOfInput));
}

#[test]
fn a_classical_bit_and_an_ancilla_bit_are_read() {
    let input = "[CircuitInstruction(operation=Instruction(name='measure', num_qubits=1, num_clbits=1, params=[]), qubits=(Qubit(QuantumRegister(1, 'q'), 0),), clbits=(Clbit(QuantumRegister(1, 'c'), 0),))]";
    let expected = WrittenInstruction {
        operation: gate("measure"),
        qubits: vec![bit(BitKind::Qubit, "1", "q", "0")],
        clbits: vec![bit(BitKind::Clbit, "1", "c", "0")],
    };
    assert_eq!(parse(input), Ok(vec![expected]));
    let input = "[CircuitInstruction(operation=Instruction(name='x', num_qubits=1, num_clbits=0, params=[]), qubits=(AncillaQubit(QuantumRegister(2, 'a'), 1.0),, clbits=())]";
    let expected = WrittenInstruction {
        operation: gate("x"),
        qubits: vec![bit(BitKind::AncillaQubit, "2", "a", "1.0")],
        clbits: vec![],
    };
    assert_eq!(parse(input), Ok(vec![expected]));
    let input = "[CircuitInstruction(operation=Instruction(name='x', num_qubits=1, num_clbits=0, params=[]), qubits=(AncillaQubit(QuantumRegister(2, 'a'), 1.0),), clbits=())]";
    assert_eq!(parse(input), Err(ParseError::Unexpected { at: 40 }));
}

#[test]
fn a_bit_of_no_known_kind_is_in_the_way() {
    let input = "[CircuitInstruction(operation=Instruction(name='x', num_qubits=1, num_clbits=0, params=[]), qubits=(Bit(QuantumRegister(1, 'q'), 0),), clbits=())]";
    assert_eq!(parse(input), Err(ParseError::Unexpected { at: 28 }));
}

#[test]
fn the_parts_of_an_operation_come_in_their_order() {
    let input = "[CircuitInstruction(operation=Instruction(num_qubits=1, name='x', num_clbits=0, params=[]), qubits=(), clbits=())]";
    assert_eq!(parse(input), Err(ParseError::Unexpected { at: 7 }));
    let input = "[CircuitInstruction(operation=Instruction(name=x, num_qubits=1, num_clbits=0, params=[]), qubits=(), clbits=())]";
    assert_eq!(parse(input), Err(ParseError::Unexpected { at: 9 }));
    let input = "[CircuitInstruction(operation=Instruction(name='x', num_qubits=one, num_clbits='0', params=[]), qubits=(), clbits=())]";
    assert_eq!(
        parse(input),
        Ok(vec![WrittenInstruction { operation: gate("x"), qubits: vec![], clbits: vec![] }])
    );
    let input = "[CircuitInstruction(operation=Instruction(name='x', num_qubits=(1), num_clbits=0, params=[]), qubits=(), clbits=())]";
    assert_eq!(parse(input), Err(ParseError::Unexpected { at: 13 }));
}

#[test]
fn tokens_that_end_too_soon_are_an_error() {
    assert_eq!(parse("[CircuitInstruction"), Err(ParseError::EndOfInput));
    assert_eq!(parse("[CircuitInstruction(operation=Instruction("), Err(ParseError::EndOfInput));
    assert_eq!(
        parse("[CircuitInstruction(operation=Instruction(name='x', num_qubits="),
        Err(ParseError::EndOfInput)
    );
    assert_eq!(
        parse("[CircuitInstruction(operation=Instruction(name='x', num_qubits=1, num_clbits=0, params=["),
        Err(ParseError::EndOfInput)
    );
    assert_eq!(
        parse("[CircuitInstruction(operation=Instruction(name='x', num_qubits=1, num_clbits=0, params=[1"),
        Err(ParseError::EndOfInput)
    );
    assert_eq!(
        parse("[CircuitInstruction(operation=Instruction(name='x', num_qubits=1, num_clbits=0, params=[]), qubits=("),
        Err(ParseError::EndOfInput)
    );
}

#[test]
fn parameters_are_kept_as_they_are_written() {
    let input = "[CircuitInstruction(operation=Instruction(name='rx', num_qubits=1, num_clbits=0, params=[1.5 0.25;]), qubits=(), clbits=())]";
    let expected = WrittenInstruction {
        operation: WrittenOperation {
            name: "rx".to_string(),
            params: vec!["1.5".to_string(), "0.25".to_string()],
        },
        qubits: vec![],
        clbits: vec![],
    };
    assert_eq!(parse("[CircuitInstruction(operation=Instruction(name='rx', num_qubits=1, num_clbits=0, params=[1.5 0.25 x]), qubits=(), clbits=())]"), Ok(vec![expected]));
    assert_eq!(parse(input), Err(ParseError::Unexpected { at: 25 }));
}

#[test]
fn the_token_after_the_parameters_is_passed_over() {
    let input = "[CircuitInstruction(operation=Instruction(name='rx', num_qubits=1, num_clbits=0, params=[1.5]), qubits=(), clbits=())]";
    assert_eq!(parse(input), Err(ParseError::Unexpected { at: 24 }));
    let input = "[CircuitInstruction(operation=Instruction(name='rx', num_qubits=1, num_clbits=0, params=[1.5, 2.5]), qubits=(), clbits=())]";
    assert_eq!(parse(input), Err(ParseError::Unexpected { at: 24 }));
}
