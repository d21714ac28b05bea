//! Handles: the addresses of slots.

use std::marker::PhantomData;
use vstd::layout::align_of;
use vstd::prelude::*;

verus! {

/// The address of a slot in an arena.
///
/// A handle owns nothing and proves nothing: it names a slot of the arena
/// that gave it out, and means nothing to any other arena. Two handles are
/// the same handle exactly when their addresses are equal, whatever the
/// slots hold.
#[derive(Debug, Hash)]
pub struct Handle<T> {
    address: usize,
    marker: PhantomData<T>,
}

impl<T> Handle<T> {
    /// The address that the handle holds.
    pub closed spec fn view(self) -> usize {
        self.address
    }

    /// The handle that holds `address`.
    pub closed spec fn at_address(address: usize) -> Self {
        Handle { address, marker: PhantomData }
    }

    /// A handle is its address and nothing more.
    pub proof fn lemma_same_address(self, other: Self)
        ensures
            self@ == other@ <==> self == other,
            Self::at_address(self@) == self,
    {
    }

    /// The handle that holds `address` holds `address`.
    pub proof fn lemma_at_address(address: usize)
        ensures
            Self::at_address(address)@ == address,
    {
    }

    /// The handle that holds `address`.
    pub fn new(address: usize) -> (handle: Self)
        ensures
            handle@ == address,
            handle == Self::at_address(address),
    {
        Handle { address, marker: PhantomData }
    }

    /// Whether the handle can name no slot that holds anything: its address is
    /// null, or is not a multiple of the alignment of `T`.
    pub open spec fn invalid(self) -> bool {
        self@ == 0 || self@ as nat % align_of::<T>() != 0
    }

    /// Whether the handle can name no slot that holds anything: its address is
    /// null, or is not a multiple of the alignment of `T`.
    pub fn is_invalid(&self) -> (invalid: bool)
        ensures
            invalid == self.invalid(),
    {
        broadcast use vstd::layout::align_nonzero;

        let align: usize = core::mem::align_of::<T>();
        self.address == 0 || self.address % align != 0
    }

    /// The address that the handle holds.
    pub fn pointer(&self) -> (address: usize)
        ensures
            address == self@,
    {
        self.address
    }
}

impl<T> Clone for Handle<T> {
    fn clone(&self) -> (copy: Self)
        ensures
            copy == *self,
    {
        Handle { address: self.address, marker: PhantomData }
    }
}

impl<T> Copy for Handle<T> {}

impl<T> PartialEq for Handle<T> {
    fn eq(&self, other: &Self) -> (equal: bool) {
        self.address == other.address
    }
}

impl<T> Eq for Handle<T> {}

impl<T> vstd::std_specs::cmp::PartialEqSpecImpl for Handle<T> {
    open spec fn obeys_eq_spec() -> bool {
        true
    }

    open spec fn eq_spec(&self, other: &Self) -> bool {
        self@ == other@
    }
}

impl<T> From<usize> for Handle<T> {
    fn from(value: usize) -> (handle: Self) {
        Handle { address: value, marker: PhantomData }
    }
}

impl<T> vstd::std_specs::convert::FromSpecImpl<usize> for Handle<T> {
    open spec fn obeys_from_spec() -> bool {
        true
    }

    open spec fn from_spec(value: usize) -> Self {
        Self::at_address(value)
    }
}

} // verus!
