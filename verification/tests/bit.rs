use circuit_pool::bit::{AncillaQubit, Bit, BitOps, Clbit, Qubit};
use circuit_pool::register::{
    AncillaRegister, ClassicalRegister, QuantumRegister, Register, RegisterOps,
};

#[test]
fn a_bit_gives_back_its_name_and_index() {
    let qubit = Qubit::new("q".to_string(), 3);
    assert_eq!(qubit.name(), "q");
    assert_eq!(qubit.index(), 3);
    let clbit = Clbit::new("c".to_string(), 0);
    assert_eq!(clbit.name(), "c");
    assert_eq!(clbit.index(), 0);
    let ancilla = AncillaQubit::new(String::new(), usize::MAX);
    assert_eq!(ancilla.name(), "");
    assert_eq!(ancilla.index(), usize::MAX);
}

#[test]
fn a_bit_of_a_kind_comes_out_of_the_bit_that_holds_it() {
    let qubit = Qubit::from(Bit::Qubit(Qubit::new("q".to_string(), 1)));
    assert!(qubit == Qubit::new("q".to_string(), 1));
    let clbit = Clbit::from(Bit::Clbit(Clbit::new("c".to_string(), 2)));
    assert!(clbit == Clbit::new("c".to_string(), 2));
    let ancilla = AncillaQubit::from(Bit::AncillaQubit(AncillaQubit::new("a".to_string(), 3)));
    assert!(ancilla == AncillaQubit::new("a".to_string(), 3));
}

#[test]
fn bits_are_equal_when_kind_name_and_index_are() {
    let qubit = Qubit::new("q".to_string(), 1);
    assert!(qubit == qubit.clone());
    assert!(qubit != Qubit::new("q".to_string(), 2));
    assert!(qubit != Qubit::new("r".to_string(), 1));
    assert!(Bit::Qubit(qubit.clone()) == Bit::Qubit(qubit.clone()));
    assert!(Bit::Qubit(qubit.clone()) != Bit::Clbit(Clbit::new("q".to_string(), 1)));
    assert!(
        Bit::AncillaQubit(AncillaQubit::new("q".to_string(), 1))
            != Bit::Qubit(Qubit::new("q".to_string(), 1))
    );
    let bit = Bit::Clbit(Clbit::new("c".to_string(), 4));
    assert!(bit.clone() == bit);
}

#[test]
fn a_register_gives_back_what_it_was_made_of() {
    let bit = Bit::Qubit(Qubit::new("q".to_string(), 0));
    let register = QuantumRegister::new(Some(2), Some("q".to_string()), Some(bit.clone()));
    assert_eq!(register.get_size(), Some(2));
    assert_eq!(register.get_name(), Some("q".to_string()));
    assert!(register.get_bits() == Some(bit));
    let register = ClassicalRegister::new(None, None, None);
    assert_eq!(register.get_size(), None);
    assert_eq!(register.get_name(), None);
    assert!(register.get_bits().is_none());
    let register = AncillaRegister::new(Some(0), Some(String::new()), None);
    assert_eq!(register.get_size(), Some(0));
    assert_eq!(register.get_name(), Some(String::new()));
    assert!(register.get_bits().is_none());
}

#[test]
fn a_register_of_a_kind_comes_out_of_the_register_that_holds_it() {
    let quantum = QuantumRegister::new(Some(1), Some("q".to_string()), None);
    assert!(QuantumRegister::from(Register::QuantumRegister(quantum.clone())) == quantum);
    let classical = ClassicalRegister::new(Some(1), Some("c".to_string()), None);
    assert!(ClassicalRegister::from(Register::ClassicalRegister(classical.clone())) == classical);
    let ancilla = AncillaRegister::new(Some(1), Some("a".to_string()), None);
    assert!(AncillaRegister::from(Register::AncillaRegister(ancilla.clone())) == ancilla);
}

#[test]
fn registers_are_equal_when_kind_size_name_and_bit_are() {
    let bit = Bit::Qubit(Qubit::new("q".to_string(), 0));
    let register = QuantumRegister::new(Some(2), Some("q".to_string()), Some(bit.clone()));
    assert!(register == register.clone());
    assert!(register != QuantumRegister::new(Some(3), Some("q".to_string()), Some(bit.clone())));
    assert!(register != QuantumRegister::new(Some(2), Some("r".to_string()), Some(bit.clone())));
    assert!(register != QuantumRegister::new(Some(2), None, Some(bit.clone())));
    assert!(register != QuantumRegister::new(Some(2), Some("q".to_string()), None));
    assert!(register != QuantumRegister::new(None, Some("q".to_string()), Some(bit)));
    let quantum = Register::QuantumRegister(QuantumRegister::new(None, None, None));
    let classical = Register::ClassicalRegister(ClassicalRegister::new(None, None, None));
    let ancilla = Register::AncillaRegister(AncillaRegister::new(None, None, None));
    assert!(quantum == quantum.clone());
    assert!(quantum != classical);
    assert!(classical != ancilla);
    assert!(ancilla == ancilla.clone());
}
