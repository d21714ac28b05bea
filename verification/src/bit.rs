//! The bits that a circuit acts on.

use vstd::prelude::*;

verus! {

/// A bit of any kind.
#[derive(Debug, Hash)]
pub enum Bit {
    Qubit(Qubit),
    Clbit(Clbit),
    AncillaQubit(AncillaQubit),
}

/// What every kind of bit offers: it is made of a name and an index, and
/// gives both back.
pub trait BitOps: Sized {
    /// The name of the register that the bit belongs to. An implementation
    /// says what it is.
    open spec fn spec_name(&self) -> Seq<char> {
        arbitrary()
    }

    /// The position of the bit in its register. An implementation says what
    /// it is.
    open spec fn spec_index(&self) -> usize {
        arbitrary()
    }

    fn new(name: String, index: usize) -> (bit: Self)
        ensures
            bit.spec_name() == name@,
            bit.spec_index() == index,
    ;

    fn name(&self) -> (name: String)
        ensures
            name@ == self.spec_name(),
    ;

    fn index(&self) -> (index: usize)
        ensures
            index == self.spec_index(),
    ;
}

/// A classical bit.
#[derive(Debug, Hash)]
pub struct Clbit {
    name: String,
    index: usize,
}

/// A quantum bit.
#[derive(Debug, Hash)]
pub struct Qubit {
    name: String,
    index: usize,
}

/// An ancilla quantum bit: a quantum bit that is not part of the main
/// register.
#[derive(Debug, Hash)]
pub struct AncillaQubit {
    name: String,
    index: usize,
}

impl Qubit {
    /// The quantum bit that `bit` holds, which the caller knows it to hold.
    pub fn from(bit: Bit) -> (qubit: Self)
        requires
            bit is Qubit,
        ensures
            bit == Bit::Qubit(qubit),
    {
        match bit {
            Bit::Qubit(qubit) => qubit,
            _ => vstd::pervasive::unreached(),
        }
    }
}

impl Clbit {
    /// The classical bit that `bit` holds, which the caller knows it to hold.
    pub fn from(bit: Bit) -> (clbit: Self)
        requires
            bit is Clbit,
        ensures
            bit == Bit::Clbit(clbit),
    {
        match bit {
            Bit::Clbit(clbit) => clbit,
            _ => vstd::pervasive::unreached(),
        }
    }
}

impl AncillaQubit {
    /// The ancilla bit that `bit` holds, which the caller knows it to hold.
    pub fn from(bit: Bit) -> (ancilla: Self)
        requires
            bit is AncillaQubit,
        ensures
            bit == Bit::AncillaQubit(ancilla),
    {
        match bit {
            Bit::AncillaQubit(ancilla) => ancilla,
            _ => vstd::pervasive::unreached(),
        }
    }
}

impl BitOps for Qubit {
    closed spec fn spec_name(&self) -> Seq<char> {
        self.name@
    }

    closed spec fn spec_index(&self) -> usize {
        self.index
    }

    fn new(name: String, index: usize) -> (bit: Self) {
        Qubit { name, index }
    }

    fn name(&self) -> (name: String) {
        self.name.clone()
    }

    fn index(&self) -> (index: usize) {
        self.index
    }
}

impl BitOps for Clbit {
    closed spec fn spec_name(&self) -> Seq<char> {
        self.name@
    }

    closed spec fn spec_index(&self) -> usize {
        self.index
    }

    fn new(name: String, index: usize) -> (bit: Self) {
        Clbit { name, index }
    }

    fn name(&self) -> (name: String) {
        self.name.clone()
    }

    fn index(&self) -> (index: usize) {
        self.index
    }
}

impl BitOps for AncillaQubit {
    closed spec fn spec_name(&self) -> Seq<char> {
        self.name@
    }

    closed spec fn spec_index(&self) -> usize {
        self.index
    }

    fn new(name: String, index: usize) -> (bit: Self) {
        AncillaQubit { name, index }
    }

    fn name(&self) -> (name: String) {
        self.name.clone()
    }

    fn index(&self) -> (index: usize) {
        self.index
    }
}

impl Clone for Qubit {
    fn clone(&self) -> (copy: Self)
        ensures
            copy == *self,
    {
        Qubit { name: self.name.clone(), index: self.index }
    }
}

impl Clone for Clbit {
    fn clone(&self) -> (copy: Self)
        ensures
            copy == *self,
    {
        Clbit { name: self.name.clone(), index: self.index }
    }
}

impl Clone for AncillaQubit {
    fn clone(&self) -> (copy: Self)
        ensures
            copy == *self,
    {
        AncillaQubit { name: self.name.clone(), index: self.index }
    }
}

impl Clone for Bit {
    fn clone(&self) -> (copy: Self)
        ensures
            copy == *self,
    {
        match self {
            Bit::Qubit(qubit) => Bit::Qubit(qubit.clone()),
            Bit::Clbit(clbit) => Bit::Clbit(clbit.clone()),
            Bit::AncillaQubit(ancilla) => Bit::AncillaQubit(ancilla.clone()),
        }
    }
}

impl Qubit {
    /// Whether the two bits have the same name and index.
    pub open spec fn same(&self, other: &Qubit) -> bool {
        self.spec_name() == other.spec_name() && self.spec_index() == other.spec_index()
    }
}

impl Clbit {
    /// Whether the two bits have the same name and index.
    pub open spec fn same(&self, other: &Clbit) -> bool {
        self.spec_name() == other.spec_name() && self.spec_index() == other.spec_index()
    }
}

/// Whether one of `qubits` has the name and index of `qubit`.
pub open spec fn has_qubit(qubits: Seq<Qubit>, qubit: Qubit) -> bool {
    exists|at: int| 0 <= at < qubits.len() && (#[trigger] qubits[at]).same(&qubit)
}

/// Whether one of `clbits` has the name and index of `clbit`.
pub open spec fn has_clbit(clbits: Seq<Clbit>, clbit: Clbit) -> bool {
    exists|at: int| 0 <= at < clbits.len() && (#[trigger] clbits[at]).same(&clbit)
}

/// Adds `qubit` at the end of `qubits`, unless a bit of its name and index is
/// there already.
pub fn insert_qubit(qubits: &mut Vec<Qubit>, qubit: Qubit)
    ensures
        final(qubits)@ == if has_qubit(old(qubits)@, qubit) {
            old(qubits)@
        } else {
            old(qubits)@.push(qubit)
        },
{
    let mut at: usize = 0;
    while at < qubits.len()
        invariant
            qubits@ == old(qubits)@,
            at <= qubits@.len(),
            forall|before: int| 0 <= before < at ==> !(#[trigger] qubits@[before]).same(&qubit),
        decreases qubits@.len() - at,
    {
        if qubits[at] == qubit {
            return ;
        }
        at += 1;
    }
    qubits.push(qubit);
}

/// Adds `clbit` at the end of `clbits`, unless a bit of its name and index is
/// there already.
pub fn insert_clbit(clbits: &mut Vec<Clbit>, clbit: Clbit)
    ensures
        final(clbits)@ == if has_clbit(old(clbits)@, clbit) {
            old(clbits)@
        } else {
            old(clbits)@.push(clbit)
        },
{
    let mut at: usize = 0;
    while at < clbits.len()
        invariant
            clbits@ == old(clbits)@,
            at <= clbits@.len(),
            forall|before: int| 0 <= before < at ==> !(#[trigger] clbits@[before]).same(&clbit),
        decreases clbits@.len() - at,
    {
        if clbits[at] == clbit {
            return ;
        }
        at += 1;
    }
    clbits.push(clbit);
}

/// The indices of `qubits`, in order.
pub fn qubit_indices(qubits: &Vec<Qubit>) -> (indices: Vec<usize>)
    ensures
        indices@ == qubits@.map_values(|qubit: Qubit| qubit.spec_index()),
{
    let mut indices: Vec<usize> = Vec::new();
    let mut at: usize = 0;
    while at < qubits.len()
        invariant
            at <= qubits@.len(),
            indices@ == qubits@.take(at as int).map_values(|qubit: Qubit| qubit.spec_index()),
        decreases qubits@.len() - at,
    {
        indices.push(qubits[at].index());
        at += 1;
        assert(qubits@.take(at as int) =~= qubits@.take(at - 1).push(qubits@[at - 1]));
        assert(indices@ =~= qubits@.take(at as int).map_values(|qubit: Qubit| qubit.spec_index()));
    }
    assert(qubits@.take(at as int) =~= qubits@);
    indices
}

/// The indices of `clbits`, in order.
pub fn clbit_indices(clbits: &Vec<Clbit>) -> (indices: Vec<usize>)
    ensures
        indices@ == clbits@.map_values(|clbit: Clbit| clbit.spec_index()),
{
    let mut indices: Vec<usize> = Vec::new();
    let mut at: usize = 0;
    while at < clbits.len()
        invariant
            at <= clbits@.len(),
            indices@ == clbits@.take(at as int).map_values(|clbit: Clbit| clbit.spec_index()),
        decreases clbits@.len() - at,
    {
        indices.push(clbits[at].index());
        at += 1;
        assert(clbits@.take(at as int) =~= clbits@.take(at - 1).push(clbits@[at - 1]));
        assert(indices@ =~= clbits@.take(at as int).map_values(|clbit: Clbit| clbit.spec_index()));
    }
    assert(clbits@.take(at as int) =~= clbits@);
    indices
}

impl PartialEq for Qubit {
    fn eq(&self, other: &Self) -> (equal: bool) {
        self.name == other.name && self.index == other.index
    }
}

impl Eq for Qubit {}

impl vstd::std_specs::cmp::PartialEqSpecImpl for Qubit {
    open spec fn obeys_eq_spec() -> bool {
        true
    }

    open spec fn eq_spec(&self, other: &Self) -> bool {
        self.spec_name() == other.spec_name() && self.spec_index() == other.spec_index()
    }
}

impl PartialEq for Clbit {
    fn eq(&self, other: &Self) -> (equal: bool) {
        self.name == other.name && self.index == other.index
    }
}

impl Eq for Clbit {}

impl vstd::std_specs::cmp::PartialEqSpecImpl for Clbit {
    open spec fn obeys_eq_spec() -> bool {
        true
    }

    open spec fn eq_spec(&self, other: &Self) -> bool {
        self.spec_name() == other.spec_name() && self.spec_index() == other.spec_index()
    }
}

impl PartialEq for AncillaQubit {
    fn eq(&self, other: &Self) -> (equal: bool) {
        self.name == other.name && self.index == other.index
    }
}

impl Eq for AncillaQubit {}

impl vstd::std_specs::cmp::PartialEqSpecImpl for AncillaQubit {
    open spec fn obeys_eq_spec() -> bool {
        true
    }

    open spec fn eq_spec(&self, other: &Self) -> bool {
        self.spec_name() == other.spec_name() && self.spec_index() == other.spec_index()
    }
}

impl PartialEq for Bit {
    fn eq(&self, other: &Self) -> (equal: bool) {
        match (self, other) {
            (Bit::Qubit(left), Bit::Qubit(right)) => left == right,
            (Bit::Clbit(left), Bit::Clbit(right)) => left == right,
            (Bit::AncillaQubit(left), Bit::AncillaQubit(right)) => left == right,
            _ => false,
        }
    }
}

impl Eq for Bit {}

impl vstd::std_specs::cmp::PartialEqSpecImpl for Bit {
    open spec fn obeys_eq_spec() -> bool {
        true
    }

    open spec fn eq_spec(&self, other: &Self) -> bool {
        match (self, other) {
            (Bit::Qubit(left), Bit::Qubit(right)) => left.spec_name() == right.spec_name()
                && left.spec_index() == right.spec_index(),
            (Bit::Clbit(left), Bit::Clbit(right)) => left.spec_name() == right.spec_name()
                && left.spec_index() == right.spec_index(),
            (Bit::AncillaQubit(left), Bit::AncillaQubit(right)) => left.spec_name()
                == right.spec_name() && left.spec_index() == right.spec_index(),
            _ => false,
        }
    }
}

} // verus!
