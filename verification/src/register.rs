//! The registers that bits belong to.

use crate::bit::Bit;
use vstd::prelude::*;
use vstd::std_specs::cmp::PartialEqSpec;

verus! {

/// A register of any kind.
#[derive(Debug, Hash)]
pub enum Register {
    QuantumRegister(QuantumRegister),
    ClassicalRegister(ClassicalRegister),
    AncillaRegister(AncillaRegister),
}

/// What every kind of register offers: it is made of a size, a name and a
/// bit, each of which may be missing, and gives each back.
pub trait RegisterOps: Sized {
    /// The number of bits in the register, if it is known. An implementation
    /// says what it is.
    open spec fn spec_size(&self) -> Option<u32> {
        arbitrary()
    }

    /// The name of the register, if it has one. An implementation says what
    /// it is.
    open spec fn spec_name(&self) -> Option<String> {
        arbitrary()
    }

    /// The bit that the register was made with, if any. An implementation
    /// says what it is.
    open spec fn spec_bits(&self) -> Option<Bit> {
        arbitrary()
    }

    fn new(size: Option<u32>, name: Option<String>, bits: Option<Bit>) -> (register: Self)
        ensures
            register.spec_size() == size,
            register.spec_name() == name,
            register.spec_bits() == bits,
    ;

    fn get_size(&self) -> (size: Option<u32>)
        ensures
            size == self.spec_size(),
    ;

    fn get_name(&self) -> (name: Option<String>)
        ensures
            name == self.spec_name(),
    ;

    fn get_bits(&self) -> (bits: Option<Bit>)
        ensures
            bits == self.spec_bits(),
    ;
}

/// Whether two names that may be missing read the same: both are missing, or
/// both are there and spell the same.
pub open spec fn same_name(left: Option<String>, right: Option<String>) -> bool {
    match (left, right) {
        (Some(left), Some(right)) => left@ == right@,
        (None, None) => true,
        _ => false,
    }
}

/// Whether two bits that may be missing are the same: both are missing, or
/// both are there and equal.
pub open spec fn same_bits(left: Option<Bit>, right: Option<Bit>) -> bool {
    match (left, right) {
        (Some(left), Some(right)) => left.eq_spec(&right),
        (None, None) => true,
        _ => false,
    }
}

fn names_match(left: &Option<String>, right: &Option<String>) -> (same: bool)
    ensures
        same == same_name(*left, *right),
{
    match (left, right) {
        (Some(left), Some(right)) => *left == *right,
        (None, None) => true,
        _ => false,
    }
}

fn bits_match(left: &Option<Bit>, right: &Option<Bit>) -> (same: bool)
    ensures
        same == same_bits(*left, *right),
{
    match (left, right) {
        (Some(left), Some(right)) => left == right,
        (None, None) => true,
        _ => false,
    }
}

/// A quantum register.
#[derive(Debug, Hash)]
pub struct QuantumRegister {
    size: Option<u32>,
    name: Option<String>,
    bits: Option<Bit>,
}

/// A classical register.
#[derive(Debug, Hash)]
pub struct ClassicalRegister {
    size: Option<u32>,
    name: Option<String>,
    bits: Option<Bit>,
}

/// An ancilla register.
#[derive(Debug, Hash)]
pub struct AncillaRegister {
    size: Option<u32>,
    name: Option<String>,
    bits: Option<Bit>,
}

impl QuantumRegister {
    /// The quantum register that `register` holds, which the caller knows it
    /// to hold.
    pub fn from(register: Register) -> (inner: Self)
        requires
            register is QuantumRegister,
        ensures
            register == Register::QuantumRegister(inner),
    {
        match register {
            Register::QuantumRegister(inner) => inner,
            _ => vstd::pervasive::unreached(),
        }
    }
}

impl RegisterOps for QuantumRegister {
    closed spec fn spec_size(&self) -> Option<u32> {
        self.size
    }

    closed spec fn spec_name(&self) -> Option<String> {
        self.name
    }

    closed spec fn spec_bits(&self) -> Option<Bit> {
        self.bits
    }

    fn new(size: Option<u32>, name: Option<String>, bits: Option<Bit>) -> (register: Self) {
        QuantumRegister { size, name, bits }
    }

    fn get_size(&self) -> (size: Option<u32>) {
        self.size
    }

    fn get_name(&self) -> (name: Option<String>) {
        match &self.name {
            Some(name) => Some(name.clone()),
            None => None,
        }
    }

    fn get_bits(&self) -> (bits: Option<Bit>) {
        match &self.bits {
            Some(bit) => Some(bit.clone()),
            None => None,
        }
    }
}

impl Clone for QuantumRegister {
    fn clone(&self) -> (copy: Self)
        ensures
            copy == *self,
    {
        QuantumRegister { size: self.size, name: self.get_name(), bits: self.get_bits() }
    }
}

impl ClassicalRegister {
    /// The classical register that `register` holds, which the caller knows it
    /// to hold.
    pub fn from(register: Register) -> (inner: Self)
        requires
            register is ClassicalRegister,
        ensures
            register == Register::ClassicalRegister(inner),
    {
        match register {
            Register::ClassicalRegister(inner) => inner,
            _ => vstd::pervasive::unreached(),
        }
    }
}

impl RegisterOps for ClassicalRegister {
    closed spec fn spec_size(&self) -> Option<u32> {
        self.size
    }

    closed spec fn spec_name(&self) -> Option<String> {
        self.name
    }

    closed spec fn spec_bits(&self) -> Option<Bit> {
        self.bits
    }

    fn new(size: Option<u32>, name: Option<String>, bits: Option<Bit>) -> (register: Self) {
        ClassicalRegister { size, name, bits }
    }

    fn get_size(&self) -> (size: Option<u32>) {
        self.size
    }

    fn get_name(&self) -> (name: Option<String>) {
        match &self.name {
            Some(name) => Some(name.clone()),
            None => None,
        }
    }

    fn get_bits(&self) -> (bits: Option<Bit>) {
        match &self.bits {
            Some(bit) => Some(bit.clone()),
            None => None,
        }
    }
}

impl Clone for ClassicalRegister {
    fn clone(&self) -> (copy: Self)
        ensures
            copy == *self,
    {
        ClassicalRegister { size: self.size, name: self.get_name(), bits: self.get_bits() }
    }
}

impl AncillaRegister {
    /// The ancilla register that `register` holds, which the caller knows it
    /// to hold.
    pub fn from(register: Register) -> (inner: Self)
        requires
            register is AncillaRegister,
        ensures
            register == Register::AncillaRegister(inner),
    {
        match register {
            Register::AncillaRegister(inner) => inner,
            _ => vstd::pervasive::unreached(),
        }
    }
}

impl RegisterOps for AncillaRegister {
    closed spec fn spec_size(&self) -> Option<u32> {
        self.size
    }

    closed spec fn spec_name(&self) -> Option<String> {
        self.name
    }

    closed spec fn spec_bits(&self) -> Option<Bit> {
        self.bits
    }

    fn new(size: Option<u32>, name: Option<String>, bits: Option<Bit>) -> (register: Self) {
        AncillaRegister { size, name, bits }
    }

    fn get_size(&self) -> (size: Option<u32>) {
        self.size
    }

    fn get_name(&self) -> (name: Option<String>) {
        match &self.name {
            Some(name) => Some(name.clone()),
            None => None,
        }
    }

    fn get_bits(&self) -> (bits: Option<Bit>) {
        match &self.bits {
            Some(bit) => Some(bit.clone()),
            None => None,
        }
    }
}

impl Clone for AncillaRegister {
    fn clone(&self) -> (copy: Self)
        ensures
            copy == *self,
    {
        AncillaRegister { size: self.size, name: self.get_name(), bits: self.get_bits() }
    }
}

impl Clone for Register {
    fn clone(&self) -> (copy: Self)
        ensures
            copy == *self,
    {
        match self {
            Register::QuantumRegister(inner) => Register::QuantumRegister(inner.clone()),
            Register::ClassicalRegister(inner) => Register::ClassicalRegister(inner.clone()),
            Register::AncillaRegister(inner) => Register::AncillaRegister(inner.clone()),
        }
    }
}

impl PartialEq for QuantumRegister {
    fn eq(&self, other: &Self) -> (equal: bool) {
        self.size == other.size && names_match(&self.name, &other.name) && bits_match(
            &self.bits,
            &other.bits,
        )
    }
}

impl Eq for QuantumRegister {}

impl vstd::std_specs::cmp::PartialEqSpecImpl for QuantumRegister {
    open spec fn obeys_eq_spec() -> bool {
        true
    }

    open spec fn eq_spec(&self, other: &Self) -> bool {
        &&& self.spec_size() == other.spec_size()
        &&& same_name(self.spec_name(), other.spec_name())
        &&& same_bits(self.spec_bits(), other.spec_bits())
    }
}

impl PartialEq for ClassicalRegister {
    fn eq(&self, other: &Self) -> (equal: bool) {
        self.size == other.size && names_match(&self.name, &other.name) && bits_match(
            &self.bits,
            &other.bits,
        )
    }
}

impl Eq for ClassicalRegister {}

impl vstd::std_specs::cmp::PartialEqSpecImpl for ClassicalRegister {
    open spec fn obeys_eq_spec() -> bool {
        true
    }

    open spec fn eq_spec(&self, other: &Self) -> bool {
        &&& self.spec_size() == other.spec_size()
        &&& same_name(self.spec_name(), other.spec_name())
        &&& same_bits(self.spec_bits(), other.spec_bits())
    }
}

impl PartialEq for AncillaRegister {
    fn eq(&self, other: &Self) -> (equal: bool) {
        self.size == other.size && names_match(&self.name, &other.name) && bits_match(
            &self.bits,
            &other.bits,
        )
    }
}

impl Eq for AncillaRegister {}

impl vstd::std_specs::cmp::PartialEqSpecImpl for AncillaRegister {
    open spec fn obeys_eq_spec() -> bool {
        true
    }

    open spec fn eq_spec(&self, other: &Self) -> bool {
        &&& self.spec_size() == other.spec_size()
        &&& same_name(self.spec_name(), other.spec_name())
        &&& same_bits(self.spec_bits(), other.spec_bits())
    }
}

impl PartialEq for Register {
    fn eq(&self, other: &Self) -> (equal: bool) {
        match (self, other) {
            (Register::QuantumRegister(left), Register::QuantumRegister(right)) => left == right,
            (Register::ClassicalRegister(left), Register::ClassicalRegister(right)) => left
                == right,
            (Register::AncillaRegister(left), Register::AncillaRegister(right)) => left == right,
            _ => false,
        }
    }
}

impl Eq for Register {}

impl vstd::std_specs::cmp::PartialEqSpecImpl for Register {
    open spec fn obeys_eq_spec() -> bool {
        true
    }

    open spec fn eq_spec(&self, other: &Self) -> bool {
        match (self, other) {
            (
                Register::QuantumRegister(left),
                Register::QuantumRegister(right),
            ) => PartialEqSpec::eq_spec(&left, &right),
            (
                Register::ClassicalRegister(left),
                Register::ClassicalRegister(right),
            ) => PartialEqSpec::eq_spec(&left, &right),
            (
                Register::AncillaRegister(left),
                Register::AncillaRegister(right),
            ) => PartialEqSpec::eq_spec(&left, &right),
            _ => false,
        }
    }
}

} // verus!
