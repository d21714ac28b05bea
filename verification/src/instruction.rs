//! Operations of differing kinds behind one interface, and the pool that
//! stores them in slots of one size.
//!
//! Parameters and durations are real numbers. This library never computes
//! with them: it carries each as the 64 bits of its IEEE 754 double, and
//! leaves the arithmetic to its callers.

use crate::util::pool::{Handle, MMapArena, PoolError};
use vstd::layout::size_of;
use vstd::prelude::*;

verus! {

/// The unit in which a duration is counted.
#[derive(Debug, PartialEq, Eq, Clone, Copy, Structural)]
pub enum Unit {
    DT,
}

/// What every kind of operation offers: its parameters, its duration and the
/// unit of that duration, each to be read and to be set. Setting one leaves
/// the other two as they are.
pub trait Operation {
    /// The parameters. An implementation says what they are.
    open spec fn spec_params(&self) -> Seq<u64> {
        arbitrary()
    }

    /// The duration, if the operation has one. An implementation says what it
    /// is.
    open spec fn spec_duration(&self) -> Option<u64> {
        arbitrary()
    }

    /// The unit of the duration. An implementation says what it is.
    open spec fn spec_unit(&self) -> Unit {
        arbitrary()
    }

    fn params(&self) -> (params: &Vec<u64>)
        ensures
            params@ == self.spec_params(),
    ;

    fn set_params(&mut self, params: Vec<u64>)
        ensures
            final(self).spec_params() == params@,
            final(self).spec_duration() == old(self).spec_duration(),
            final(self).spec_unit() == old(self).spec_unit(),
    ;

    fn duration(&self) -> (duration: Option<u64>)
        ensures
            duration == self.spec_duration(),
    ;

    fn set_duration(&mut self, duration: Option<u64>)
        ensures
            final(self).spec_duration() == duration,
            final(self).spec_params() == old(self).spec_params(),
            final(self).spec_unit() == old(self).spec_unit(),
    ;

    fn unit(&self) -> (unit: Unit)
        ensures
            unit == self.spec_unit(),
    ;

    fn set_unit(&mut self, unit: Unit)
        ensures
            final(self).spec_unit() == unit,
            final(self).spec_params() == old(self).spec_params(),
            final(self).spec_duration() == old(self).spec_duration(),
    ;
}

/// The plain operation: parameters, a duration and its unit, and nothing else.
#[derive(Debug)]
pub struct Instruction {
    params: Vec<u64>,
    duration: Option<u64>,
    unit: Unit,
}

impl Instruction {
    pub fn new(params: Vec<u64>, duration: Option<u64>, unit: Unit) -> (instruction: Self)
        ensures
            instruction.spec_params() == params@,
            instruction.spec_duration() == duration,
            instruction.spec_unit() == unit,
    {
        Instruction { params, duration, unit }
    }
}

impl Operation for Instruction {
    closed spec fn spec_params(&self) -> Seq<u64> {
        self.params@
    }

    closed spec fn spec_duration(&self) -> Option<u64> {
        self.duration
    }

    closed spec fn spec_unit(&self) -> Unit {
        self.unit
    }

    fn params(&self) -> (params: &Vec<u64>) {
        &self.params
    }

    fn duration(&self) -> (duration: Option<u64>) {
        self.duration
    }

    fn unit(&self) -> (unit: Unit) {
        self.unit
    }

    fn set_params(&mut self, params: Vec<u64>) {
        self.params = params;
    }

    fn set_duration(&mut self, duration: Option<u64>) {
        self.duration = duration;
    }

    fn set_unit(&mut self, unit: Unit) {
        self.unit = unit;
    }
}

impl Clone for Instruction {
    fn clone(&self) -> (copy: Self)
        ensures
            copy.spec_params() == self.spec_params(),
            copy.spec_duration() == self.spec_duration(),
            copy.spec_unit() == self.spec_unit(),
    {
        Instruction { params: self.params.clone(), duration: self.duration, unit: self.unit }
    }
}

impl PartialEq for Instruction {
    fn eq(&self, other: &Self) -> (equal: bool) {
        let same_params = self.params == other.params;
        proof {
            if same_params {
                assert(self.params@ =~= other.params@);
            }
        }
        same_params && self.duration == other.duration && self.unit == other.unit
    }
}

impl vstd::std_specs::cmp::PartialEqSpecImpl for Instruction {
    open spec fn obeys_eq_spec() -> bool {
        true
    }

    open spec fn eq_spec(&self, other: &Self) -> bool {
        &&& self.spec_params() == other.spec_params()
        &&& self.spec_duration() == other.spec_duration()
        &&& self.spec_unit() == other.spec_unit()
    }
}

/// Operations of any kinds in one arena. What a slot holds is an owning
/// pointer to the operation, so every slot has the size of one pointer,
/// whatever the sizes of the operations. The pool owns every operation added
/// to it, and releases them all together when it is dropped.
pub struct OperationPool {
    arena: MMapArena<Box<dyn Operation>>,
}

impl OperationPool {
    /// The arena of the pointers.
    pub closed spec fn arena(&self) -> MMapArena<Box<dyn Operation>> {
        self.arena
    }

    /// The number of operations added so far.
    pub open spec fn count(&self) -> nat {
        self.arena().count()
    }

    /// Whether `handle` was given out by this pool.
    pub open spec fn owns(&self, handle: Handle<Box<dyn Operation>>) -> bool {
        self.arena().owns(handle)
    }

    /// The pool's invariant: the arena is sound, and every slot that a handle
    /// names holds a pointer.
    pub open spec fn wf(&self) -> bool {
        self.arena().wf() && self.arena().filled()
    }

    /// An empty pool with a budget of `size` bytes for the pointers. The error
    /// is `Reservation` when the arena cannot be made.
    pub fn new(size: usize) -> (made: Result<Self, PoolError>)
        ensures
            size_of::<Box<dyn Operation>>() == 0 ==> made is Ok,
            match made {
                Ok(pool) => pool.wf() && pool.count() == 0 && pool.arena().capacity() == size,
                Err(error) => error == PoolError::Reservation,
            },
    {
        match MMapArena::new(size) {
            Ok(arena) => Ok(OperationPool { arena }),
            Err(error) => Err(error),
        }
    }

    /// The number of operations added so far.
    pub fn len(&self) -> (count: usize)
        ensures
            count == self.count(),
    {
        self.arena.len()
    }

    /// Whether `handle` was given out by this pool.
    pub fn contains(&self, handle: Handle<Box<dyn Operation>>) -> (owned: bool)
        requires
            self.wf(),
        ensures
            owned == self.owns(handle),
    {
        self.arena.contains(handle)
    }

    /// Takes `item` into the pool and gives the handle of the slot that holds
    /// the pointer to it.
    ///
    /// `Ok` exactly when the arena has room for one more pointer; if not, the
    /// error is `ArenaFull`, the pool is as before, and `item` is dropped.
    pub fn add(&mut self, item: Box<dyn Operation>) -> (added: Result<
        Handle<Box<dyn Operation>>,
        PoolError,
    >)
        requires
            old(self).wf(),
        ensures
            final(self).wf(),
            old(self).arena().added(item, final(self).arena(), added),
            added matches Ok(handle) ==> {
                &&& final(self).count() == old(self).count() + 1
                &&& final(self).owns(handle)
                &&& final(self).arena().holds(handle, item)
            },
    {
        self.arena.add(item)
    }

    /// The operation that `handle` names, behind its pointer.
    pub fn get(&self, handle: Handle<Box<dyn Operation>>) -> (item: &Box<dyn Operation>)
        requires
            self.wf(),
            self.owns(handle),
        ensures
            Some(*item) == self.arena().slot(handle),
    {
        proof {
            self.arena().lemma_owned_index(handle);
        }
        self.arena.get(handle)
    }
}

} // verus!
