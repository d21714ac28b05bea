//! The handles of an arena's slots, as an array and as a walk over it.

use crate::util::handle::Handle;
use crate::util::layout::{lemma_named_slot, names_slot, slot_address, slot_index};
use std::marker::PhantomData;
use vstd::layout::size_of;
use vstd::prelude::*;

verus! {

/// The handles of the first `count` slots of `T` laid out from `base` on, in
/// order.
pub open spec fn slot_handles<T>(base: usize, count: nat) -> Seq<Handle<T>> {
    Seq::new(count, |index: int| Handle::at_address(slot_address::<T>(base, index) as usize))
}

/// The handles of the first `count` slots are `count` handles, each the
/// address of the slot at its position, and they are exactly the handles that
/// name one of those slots.
pub proof fn lemma_slot_handles<T>(base: usize, count: nat, handle: Handle<T>)
    requires
        slot_address::<T>(base, count as int) <= usize::MAX,
    ensures
        slot_handles::<T>(base, count).len() == count,
        forall|index: int|
            0 <= index < count ==> (#[trigger] slot_handles::<T>(base, count)[index])@
                == slot_address::<T>(base, index),
        names_slot::<T>(base, count, handle) <==> slot_handles::<T>(base, count).contains(handle),
{
    let handles = slot_handles::<T>(base, count);
    assert forall|index: int| 0 <= index < count implies (#[trigger] handles[index])@
        == slot_address::<T>(base, index) by {
        assert(count * size_of::<T>() >= index * size_of::<T>() && index * size_of::<T>() >= 0)
            by (nonlinear_arith)
            requires
                0 <= index < count,
        ;
        Handle::<T>::lemma_at_address(slot_address::<T>(base, index) as usize);
    }
    if names_slot::<T>(base, count, handle) {
        lemma_named_slot::<T>(base, count, handle);
        let index = slot_index::<T>(base, handle);
        handle.lemma_same_address(handles[index]);
    }
    if handles.contains(handle) {
        let index = choose|index: int| 0 <= index < handles.len() && handles[index] == handle;
        assert(handle@ == slot_address::<T>(base, index));
    }
}

/// The handles of the first `count + 1` slots are those of the first `count`
/// and then the address of the slot after them.
pub proof fn lemma_slot_handles_push<T>(base: usize, count: nat, handle: Handle<T>)
    requires
        handle@ == slot_address::<T>(base, count as int),
    ensures
        slot_handles::<T>(base, count + 1) == slot_handles::<T>(base, count).push(handle),
{
    handle.lemma_same_address(handle);
    assert(slot_handles::<T>(base, count + 1) =~= slot_handles::<T>(base, count).push(handle));
}

/// The handles of the slots that an arena had handed out at one moment, in
/// order. It is a record of that moment: slots handed out later are not in it.
#[derive(Debug)]
pub struct HandleArray<T> {
    start: usize,
    length: usize,
    marker: PhantomData<T>,
}

impl<T> HandleArray<T> {
    /// The handles, in the order their slots were handed out.
    pub closed spec fn view(&self) -> Seq<Handle<T>> {
        slot_handles::<T>(self.start, self.length as nat)
    }

    /// The array's invariant: each of its slots has an address.
    pub closed spec fn wf(&self) -> bool {
        slot_address::<T>(self.start, self.length as int) <= usize::MAX
    }

    /// The handles of the first `length` slots laid out from `start` on, all
    /// of which have an address.
    pub(crate) fn new(start: usize, length: usize) -> (array: Self)
        requires
            slot_address::<T>(start, length as int) <= usize::MAX,
        ensures
            array.wf(),
            array@ == slot_handles::<T>(start, length as nat),
    {
        HandleArray { start, length, marker: PhantomData }
    }

    /// The handle at position `index`.
    pub fn at(&self, index: usize) -> (handle: Handle<T>)
        requires
            self.wf(),
            index < self@.len(),
        ensures
            handle == self@[index as int],
    {
        let size: usize = core::mem::size_of::<T>();
        assert(index * size <= self.length * size) by (nonlinear_arith)
            requires
                index < self.length,
        ;
        let handle = Handle::new(self.start + index * size);
        proof {
            Handle::<T>::lemma_at_address(handle@);
            handle.lemma_same_address(self@[index as int]);
        }
        handle
    }

    /// The number of handles.
    pub fn len(&self) -> (length: usize)
        ensures
            length == self@.len(),
    {
        self.length
    }

    /// Whether there is no handle.
    pub fn is_empty(&self) -> (empty: bool)
        ensures
            empty == (self@.len() == 0),
    {
        self.length == 0
    }

    /// The handle given out last, if any was.
    pub fn last(&self) -> (handle: Option<Handle<T>>)
        requires
            self.wf(),
        ensures
            handle == if self@.len() == 0 {
                None
            } else {
                Some(self@.last())
            },
    {
        if self.is_empty() {
            None
        } else {
            Some(self.at(self.len() - 1))
        }
    }

    /// A walk over the handles from the first on. Every walk over one array
    /// yields the same handles in the same order.
    pub fn into_iter(self) -> (walk: HandleArrayIterator<T>)
        requires
            self.wf(),
        ensures
            walk.wf(),
            walk.array() == self,
            walk.position() == 0,
            walk.remaining() == self@,
    {
        let walk = HandleArrayIterator { array: self, index: 0 };
        assert(walk.remaining() =~= self@);
        walk
    }

    /// Every walk over one array starts with the same handles to come: those
    /// of the array, in order. So walking an array twice yields the same
    /// handles twice.
    pub proof fn lemma_walks_agree(
        &self,
        first: HandleArrayIterator<T>,
        second: HandleArrayIterator<T>,
    )
        requires
            first.array() == *self,
            first.position() == 0,
            second.array() == *self,
            second.position() == 0,
        ensures
            first.remaining() == self@,
            second.remaining() == self@,
    {
        assert(first.remaining() =~= self@);
        assert(second.remaining() =~= self@);
    }
}

impl<T> Clone for HandleArray<T> {
    fn clone(&self) -> (copy: Self)
        ensures
            copy == *self,
    {
        HandleArray { start: self.start, length: self.length, marker: PhantomData }
    }
}

impl<T> Copy for HandleArray<T> {}

/// A walk over a `HandleArray`, from some position to its end.
pub struct HandleArrayIterator<T> {
    array: HandleArray<T>,
    index: usize,
}

impl<T> HandleArrayIterator<T> {
    /// The array that is walked over.
    pub closed spec fn array(&self) -> HandleArray<T> {
        self.array
    }

    /// The number of handles already yielded.
    pub closed spec fn position(&self) -> nat {
        self.index as nat
    }

    /// The handles still to come, in order.
    pub open spec fn remaining(&self) -> Seq<Handle<T>> {
        self.array()@.skip(self.position() as int)
    }

    /// The walk's invariant: it is over a sound array and not past its end.
    pub open spec fn wf(&self) -> bool {
        self.array().wf() && self.position() <= self.array()@.len()
    }

    /// Yields the next handle and moves on, or `None` at the end.
    pub fn next(&mut self) -> (handle: Option<Handle<T>>)
        requires
            old(self).wf(),
        ensures
            final(self).wf(),
            final(self).array() == old(self).array(),
            match handle {
                Some(handle) => {
                    &&& old(self).position() < old(self).array()@.len()
                    &&& handle == old(self).array()@[old(self).position() as int]
                    &&& final(self).position() == old(self).position() + 1
                    &&& final(self).remaining() == old(self).remaining().skip(1)
                },
                None => {
                    &&& old(self).position() == old(self).array()@.len()
                    &&& final(self).position() == old(self).position()
                },
            },
    {
        if self.index == self.array.len() {
            None
        } else {
            let handle = self.array.at(self.index);
            self.index += 1;
            assert(self.remaining() =~= old(self).remaining().skip(1));
            Some(handle)
        }
    }

    /// The number of handles in the array that is walked over.
    pub fn len(&self) -> (length: usize)
        ensures
            length == self.array()@.len(),
    {
        self.array.len()
    }
}

} // verus!
