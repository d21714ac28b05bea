//! The arena: a budget of bytes handed out one slot at a time.

use crate::util::handle::Handle;
use crate::util::layout::{
    lemma_named_slot,
    lemma_room,
    lemma_slot_index,
    names_slot,
    slot_address,
    slot_index,
    usable,
};
use crate::util::region::{region_address, region_len, region_size, reserve};
use memmap2::MmapMut;
use vstd::arithmetic::div_mod::{lemma_fundamental_div_mod, lemma_mod_multiples_basic};
use vstd::layout::{align_of, size_of};
use vstd::prelude::*;

verus! {

/// Why an arena or a pool could not do what it was asked.
#[derive(Debug, Clone, Copy, PartialEq, Eq, Structural)]
pub enum PoolError {
    /// The address range for the arena could not be reserved, or cannot be
    /// used for slots of the element type.
    Reservation,
    /// Every slot that the budget allows has been handed out.
    ArenaFull,
}

/// A budget of bytes, fixed when the arena is made and handed out one slot of
/// `T` at a time, in order. No slot is ever taken back.
///
/// The arena keeps an address range of that many bytes reserved for as long
/// as it lives; slot `i` has the address `base + i * size_of::<T>()` in that
/// range, and that address never changes. An element type without size needs
/// no range: its slots all share the null address.
pub struct MMapArena<T> {
    region: Option<MmapMut>,
    base: usize,
    capacity: usize,
    slots: Vec<Option<T>>,
}

impl<T> MMapArena<T> {
    /// What each slot handed out so far holds, in the order they were handed
    /// out: `None` for a slot that has not been written yet.
    pub closed spec fn view(&self) -> Seq<Option<T>> {
        self.slots@
    }

    /// The address of the first slot.
    pub closed spec fn base(&self) -> usize {
        self.base
    }

    /// The budget in bytes.
    pub closed spec fn capacity(&self) -> usize {
        self.capacity
    }

    /// Whether the arena holds the reservation its element type calls for:
    /// a range of `capacity` bytes where `T` has a size, none where it has not.
    pub closed spec fn backed(&self) -> bool {
        match self.region {
            Some(region) => size_of::<T>() > 0 && region_len(region) == self.capacity,
            None => size_of::<T>() == 0,
        }
    }

    /// The number of slots handed out so far.
    pub open spec fn count(&self) -> nat {
        self@.len()
    }

    /// The address of slot `index`.
    pub open spec fn slot_address(&self, index: int) -> int {
        slot_address::<T>(self.base(), index)
    }

    /// Whether one more slot fits in the budget.
    pub open spec fn has_room(&self) -> bool {
        (self.count() + 1) * size_of::<T>() <= self.capacity()
    }

    /// Whether `handle` is the address of a slot handed out by this arena.
    pub open spec fn owns(&self, handle: Handle<T>) -> bool {
        names_slot::<T>(self.base(), self.count(), handle)
    }

    /// The index of the slot that `handle` names.
    pub open spec fn index_of_spec(&self, handle: Handle<T>) -> int {
        slot_index::<T>(self.base(), handle)
    }

    /// What the slot that `handle` names holds: `None` until it is written.
    pub open spec fn slot(&self, handle: Handle<T>) -> Option<T> {
        self@[self.index_of_spec(handle)]
    }

    /// Whether the slot that `handle` names holds `value`.
    pub open spec fn holds(&self, handle: Handle<T>, value: T) -> bool {
        self.slot(handle) == Some(value)
    }

    /// The value in the slot that `handle` names.
    pub open spec fn value(&self, handle: Handle<T>) -> T {
        self.slot(handle)->0
    }

    /// Whether every slot that a handle of this arena names has been written.
    pub open spec fn filled(&self) -> bool {
        forall|index: int|
            0 <= index < self.count() && (size_of::<T>() > 0 || index == 0) ==> (
            #[trigger] self@[index]) is Some
    }

    /// The arena's invariant: it holds its reservation, the slots handed out
    /// fit in the budget, and the base is one that slots of `T` can be laid
    /// out from.
    pub open spec fn wf(&self) -> bool {
        &&& self.backed()
        &&& self.count() * size_of::<T>() <= self.capacity()
        &&& if size_of::<T>() == 0 {
            self.base() == 0
        } else {
            usable::<T>(self.base(), self.capacity() as nat)
        }
    }

    /// Whether `after` lies where this arena lies, with the same budget.
    pub open spec fn same_span(&self, after: Self) -> bool {
        after.base() == self.base() && after.capacity() == self.capacity()
    }

    /// What handing out one more slot comes to: with room for it, `after` is
    /// this arena with one slot more, not yet written, and the new handle is
    /// that slot's address; without room, `ArenaFull` and no change.
    pub open spec fn allocated(&self, after: Self, outcome: Result<Handle<T>, PoolError>) -> bool {
        match outcome {
            Ok(handle) => {
                &&& self.has_room()
                &&& self.same_span(after)
                &&& handle@ == self.slot_address(self.count() as int)
                &&& after@ == self@.push(None)
            },
            Err(error) => {
                &&& !self.has_room()
                &&& error == PoolError::ArenaFull
                &&& after == *self
            },
        }
    }

    /// What adding `value` comes to: with room for one more slot, `after` is
    /// this arena with one slot more, the new handle is that slot's address,
    /// and the slot that the new handle names holds `value`; without room,
    /// `ArenaFull` and no change.
    pub open spec fn added(
        &self,
        value: T,
        after: Self,
        outcome: Result<Handle<T>, PoolError>,
    ) -> bool {
        match outcome {
            Ok(handle) => {
                &&& self.has_room()
                &&& self.same_span(after)
                &&& handle@ == self.slot_address(self.count() as int)
                &&& after@ == self@.push(None).update(after.index_of_spec(handle), Some(value))
            },
            Err(error) => {
                &&& !self.has_room()
                &&& error == PoolError::ArenaFull
                &&& after == *self
            },
        }
    }

    /// What writing `slot` over the slot at `index` comes to.
    pub open spec fn written(&self, index: int, slot: Option<T>, after: Self) -> bool {
        &&& self.same_span(after)
        &&& after.backed() == self.backed()
        &&& after@ == self@.update(index, slot)
    }

    /// An arena over `region`, with its slots laid out from the address `base`
    /// on. `Ok` exactly when that layout is usable for `T`; the arena then has
    /// the region's length as its budget, and no slot handed out yet.
    pub fn with_region(region: MmapMut, base: usize) -> (made: Result<Self, PoolError>)
        ensures
            match made {
                Ok(arena) => {
                    &&& usable::<T>(base, region_len(region))
                    &&& arena.wf()
                    &&& arena.base() == base
                    &&& arena.capacity() == region_len(region)
                    &&& arena@ == Seq::<Option<T>>::empty()
                },
                Err(error) => !usable::<T>(base, region_len(region)) && error
                    == PoolError::Reservation,
            },
    {
        broadcast use vstd::layout::align_nonzero;

        let capacity: usize = region_size(&region);
        let align: usize = core::mem::align_of::<T>();
        if core::mem::size_of::<T>() == 0 || base == 0 || base % align != 0 || capacity > usize::MAX
            - base {
            return Err(PoolError::Reservation);
        }
        Ok(MMapArena { region: Some(region), base, capacity, slots: Vec::new() })
    }

    /// An arena with a budget of `size` bytes and no slot handed out yet.
    ///
    /// For an element type without size nothing is reserved, and the arena is
    /// always made. Otherwise the system is asked for `size` bytes, and the
    /// arena is made when it grants a range that slots of `T` can be laid out
    /// in; if not, the error is `Reservation`.
    pub fn new(size: usize) -> (made: Result<Self, PoolError>)
        ensures
            size_of::<T>() == 0 ==> made is Ok,
            match made {
                Ok(arena) => {
                    &&& arena.wf()
                    &&& arena.capacity() == size
                    &&& arena@ == Seq::<Option<T>>::empty()
                },
                Err(error) => error == PoolError::Reservation,
            },
    {
        if core::mem::size_of::<T>() == 0 {
            return Ok(MMapArena { region: None, base: 0, capacity: size, slots: Vec::new() });
        }
        match reserve(size) {
            Some(region) => {
                let base: usize = region_address(&region);
                Self::with_region(region, base)
            },
            None => Err(PoolError::Reservation),
        }
    }

    /// The number of slots handed out so far.
    pub fn len(&self) -> (count: usize)
        ensures
            count == self.count(),
    {
        self.slots.len()
    }

    /// Whether the budget is used up: no further slot fits.
    pub fn is_full(&self) -> (full: bool)
        requires
            self.wf(),
        ensures
            full == !self.has_room(),
    {
        let size: usize = core::mem::size_of::<T>();
        if size == 0 {
            return false;
        }
        proof {
            lemma_room(self.count(), size as nat, self.capacity as nat);
        }
        self.slots.len() >= self.capacity / size
    }

    /// Hands out the next slot, not yet written, and gives its handle.
    ///
    /// `Ok` exactly when one more slot fits in the budget, which for an
    /// element type without size is always. When the budget is used up the
    /// error is `ArenaFull` and the arena is as before.
    pub fn allocate(&mut self) -> (handed: Result<Handle<T>, PoolError>)
        requires
            old(self).wf(),
        ensures
            final(self).wf(),
            old(self).allocated(*final(self), handed),
            size_of::<T>() == 0 ==> handed is Ok,
            handed matches Ok(handle) ==> final(self).owns(handle) && (size_of::<T>() > 0
                ==> !handle.invalid()),
    {
        let size: usize = core::mem::size_of::<T>();
        let count: usize = self.slots.len();
        if size == 0 {
            self.slots.push(None);
            assert(self.slot_address(count as int) == 0);
            return Ok(Handle::new(0));
        }
        proof {
            lemma_room(count as nat, size as nat, self.capacity as nat);
        }
        if count >= self.capacity / size {
            return Err(PoolError::ArenaFull);
        }
        assert(count * size + size <= self.capacity) by (nonlinear_arith)
            requires
                (count + 1) * size <= self.capacity,
        ;
        let address: usize = self.base + count * size;
        self.slots.push(None);
        assert(self.slot_address(count as int) == address);
        let handle = Handle::new(address);
        proof {
            self.lemma_owned_is_valid(handle);
        }
        Ok(handle)
    }

    /// Adds `value`: hands out the next slot, writes `value` into the slot
    /// that the new handle names, and gives that handle.
    ///
    /// `Ok` exactly when one more slot fits in the budget; if not, the error
    /// is `ArenaFull`, the arena is as before, and `value` is dropped.
    pub fn add(&mut self, value: T) -> (added: Result<Handle<T>, PoolError>)
        requires
            old(self).wf(),
        ensures
            final(self).wf(),
            old(self).added(value, *final(self), added),
            old(self).filled() ==> final(self).filled(),
            added matches Ok(handle) ==> {
                &&& final(self).count() == old(self).count() + 1
                &&& final(self).owns(handle)
                &&& final(self).holds(handle, value)
            },
    {
        let handle = match self.allocate() {
            Ok(handle) => handle,
            Err(error) => {
                return Err(error);
            },
        };
        proof {
            self.lemma_owned_index(handle);
        }
        let index: usize = self.index_of(handle);
        self.store(index, value);
        Ok(handle)
    }

    /// The index of the slot that `handle` names, recovered from its address.
    pub fn index_of(&self, handle: Handle<T>) -> (index: usize)
        requires
            self.wf(),
            self.owns(handle),
        ensures
            index == self.index_of_spec(handle),
            index < self.count(),
            handle@ == self.slot_address(index as int),
    {
        let size: usize = core::mem::size_of::<T>();
        proof {
            self.lemma_owned_index(handle);
        }
        if size == 0 {
            0
        } else {
            (handle.pointer() - self.base) / size
        }
    }

    /// The handle of the slot at `index`, which the caller knows to have been
    /// handed out.
    pub fn at(&self, index: usize) -> (handle: Handle<T>)
        requires
            self.wf(),
            index < self.count(),
        ensures
            handle@ == self.slot_address(index as int),
            self.owns(handle),
    {
        let size: usize = core::mem::size_of::<T>();
        assert(index * size <= self.count() * size) by (nonlinear_arith)
            requires
                index < self.count(),
        ;
        Handle::new(self.base + index * size)
    }

    /// Whether `handle` is the address of a slot handed out by this arena.
    pub fn contains(&self, handle: Handle<T>) -> (owned: bool)
        requires
            self.wf(),
        ensures
            owned == self.owns(handle),
    {
        let size: usize = core::mem::size_of::<T>();
        let count: usize = self.slots.len();
        let address: usize = handle.pointer();
        if size == 0 {
            proof {
                if self.owns(handle) {
                    self.lemma_owned_index(handle);
                }
                if count > 0 {
                    assert(self.slot_address(0) == 0);
                }
            }
            return address == 0 && count > 0;
        }
        if address < self.base {
            proof {
                if self.owns(handle) {
                    self.lemma_owned_index(handle);
                }
            }
            return false;
        }
        let offset: usize = address - self.base;
        let index: usize = offset / size;
        proof {
            lemma_fundamental_div_mod(offset as int, size as int);
            if self.owns(handle) {
                self.lemma_owned_index(handle);
                lemma_mod_multiples_basic(index as int, size as int);
            }
            if offset % size == 0 && index < count {
                assert(size * index == index * size) by (nonlinear_arith);
                assert(handle@ == self.slot_address(index as int));
            }
        }
        offset % size == 0 && index < count
    }

    /// Whether the slot at `index` has been written.
    pub fn is_written(&self, index: usize) -> (written: bool)
        requires
            index < self.count(),
        ensures
            written == (self@[index as int] is Some),
    {
        self.slots[index].is_some()
    }

    /// What the slot at `index` holds.
    pub fn at_index_ref(&self, index: usize) -> (value: &T)
        requires
            index < self.count(),
            self@[index as int] is Some,
        ensures
            Some(*value) == self@[index as int],
    {
        match &self.slots[index] {
            Some(value) => value,
            None => vstd::pervasive::unreached(),
        }
    }

    /// What the slot at `index` holds, to be changed in place.
    pub fn at_index_mut(&mut self, index: usize) -> (value: &mut T)
        requires
            index < old(self).count(),
            old(self)@[index as int] is Some,
        ensures
            Some(*value) == old(self)@[index as int],
            old(self).written(index as int, Some(*final(value)), *final(self)),
            old(self).wf() ==> final(self).wf(),
            old(self).filled() ==> final(self).filled(),
    {
        match &mut self.slots[index] {
            Some(value) => value,
            None => vstd::pervasive::unreached(),
        }
    }

    /// Writes `value` into the slot at `index`, over whatever it held.
    pub fn store(&mut self, index: usize, value: T)
        requires
            index < old(self).count(),
        ensures
            old(self).written(index as int, Some(value), *final(self)),
            old(self).wf() ==> final(self).wf(),
            old(self).filled() ==> final(self).filled(),
    {
        self.slots.set(index, Some(value));
    }

    /// The value in the slot that `handle` names, which must have been
    /// written.
    pub fn get(&self, handle: Handle<T>) -> (value: &T)
        requires
            self.wf(),
            self.owns(handle),
            self.slot(handle) is Some,
        ensures
            Some(*value) == self.slot(handle),
    {
        let index: usize = self.index_of(handle);
        self.at_index_ref(index)
    }

    /// The value in the slot that `handle` names, which must have been
    /// written, to be changed in place.
    pub fn get_mut(&mut self, handle: Handle<T>) -> (value: &mut T)
        requires
            old(self).wf(),
            old(self).owns(handle),
            old(self).slot(handle) is Some,
        ensures
            Some(*value) == old(self).slot(handle),
            old(self).written(old(self).index_of_spec(handle), Some(*final(value)), *final(self)),
            final(self).wf(),
            final(self).slot(handle) == Some(*final(value)),
            old(self).filled() ==> final(self).filled(),
    {
        let index: usize = self.index_of(handle);
        self.at_index_mut(index)
    }

    /// The base address and the number of slots handed out so far.
    pub fn as_slice(&self) -> (span: (usize, usize))
        ensures
            span.0 == self.base(),
            span.1 == self.count(),
    {
        (self.base, self.slots.len())
    }

    /// Where the element type has a size, the arena has room exactly while
    /// fewer slots are handed out than its budget holds whole ones. So of the
    /// calls of `allocate` on a new arena with a budget of `C` bytes, the
    /// first `C / size_of::<T>()` give a slot, and the next gives `ArenaFull`.
    pub proof fn lemma_room_until_full(&self)
        requires
            self.wf(),
            size_of::<T>() > 0,
        ensures
            self.has_room() <==> self.count() < self.capacity() as nat / size_of::<T>(),
            self.count() <= self.capacity() as nat / size_of::<T>(),
    {
        let size = size_of::<T>();
        let capacity = self.capacity() as nat;
        lemma_room(self.count(), size, capacity);
        if self.count() > 0 {
            lemma_room((self.count() - 1) as nat, size, capacity);
        }
    }

    /// Where the element type has no size, the arena always has room, whatever
    /// its budget, and every handle it has given out is the null address and
    /// names slot 0.
    pub proof fn lemma_sizeless(&self, handle: Handle<T>)
        requires
            self.wf(),
            size_of::<T>() == 0,
        ensures
            self.has_room(),
            self.owns(handle) <==> handle@ == 0 && self.count() > 0,
            self.index_of_spec(handle) == 0,
    {
        if self.owns(handle) {
            self.lemma_owned_index(handle);
        }
        if self.count() > 0 {
            assert(slot_address::<T>(self.base(), 0) == 0);
        }
    }

    /// A handle that the arena owns names the slot at its index, which has
    /// been handed out; where the element type has a size, it names no other.
    pub proof fn lemma_owned_index(&self, handle: Handle<T>)
        requires
            self.owns(handle),
        ensures
            0 <= self.index_of_spec(handle) < self.count(),
            handle@ == self.slot_address(self.index_of_spec(handle)),
            size_of::<T>() > 0 ==> forall|index: int|
                handle@ == #[trigger] slot_address::<T>(self.base(), index) ==> index
                    == self.index_of_spec(handle),
    {
        lemma_named_slot::<T>(self.base(), self.count(), handle);
    }

    /// Where the element type has a size, every handle that the arena owns is
    /// valid: not null, and aligned for `T`.
    pub proof fn lemma_owned_is_valid(&self, handle: Handle<T>)
        requires
            self.wf(),
            size_of::<T>() > 0,
            self.owns(handle),
        ensures
            !handle.invalid(),
    {
        broadcast use vstd::layout::align_properties, vstd::layout::align_nonzero;

        self.lemma_owned_index(handle);
        let index = self.index_of_spec(handle);
        let size = size_of::<T>() as int;
        let align = align_of::<T>() as int;
        let base = self.base() as int;
        assert(index * size >= 0) by (nonlinear_arith)
            requires
                index >= 0,
                size >= 0,
        ;
        lemma_fundamental_div_mod(size, align);
        lemma_fundamental_div_mod(base, align);
        let bases = base / align;
        let sizes = size / align;
        let whole = bases + index * sizes;
        assert(base + index * size == whole * align) by (nonlinear_arith)
            requires
                base == align * bases,
                size == align * sizes,
                whole == bases + index * sizes,
        ;
        lemma_mod_multiples_basic(whole, align);
    }

    /// Where the element type has a size, two handles that the arena owns
    /// name the same slot only if they are the same handle.
    pub proof fn lemma_distinct_slots(&self, first: Handle<T>, second: Handle<T>)
        requires
            size_of::<T>() > 0,
            self.owns(first),
            self.owns(second),
        ensures
            self.index_of_spec(first) == self.index_of_spec(second) <==> first == second,
    {
        self.lemma_owned_index(first);
        self.lemma_owned_index(second);
        first.lemma_same_address(second);
    }

    /// After a value is added, its handle is owned and names it. Where the
    /// element type has a size, the new handle differs from every earlier
    /// one, and whatever an earlier handle named it still names.
    pub proof fn lemma_added(&self, value: T, after: Self, handle: Handle<T>)
        requires
            self.wf(),
            self.added(value, after, Ok(handle)),
        ensures
            after.count() == self.count() + 1,
            after.owns(handle),
            after.slot(handle) == Some(value),
            forall|earlier: Handle<T>| #[trigger] self.owns(earlier) ==> after.owns(earlier),
            size_of::<T>() > 0 ==> {
                &&& !self.owns(handle)
                &&& after.index_of_spec(handle) == self.count()
                &&& after@ == self@.push(Some(value))
                &&& forall|earlier: Handle<T>| #[trigger]
                    self.owns(earlier) ==> after.slot(earlier) == self.slot(earlier)
            },
    {
        let count = self.count() as int;
        assert(handle@ == slot_address::<T>(after.base(), count));
        if size_of::<T>() > 0 {
            lemma_slot_index::<T>(after.base(), count, handle);
            if self.owns(handle) {
                self.lemma_owned_index(handle);
            }
            assert(after@ =~= self@.push(Some(value)));
        }
        assert(after.count() == count + 1);
        assert forall|earlier: Handle<T>| #[trigger] self.owns(earlier) implies after.owns(
            earlier,
        ) by {
            self.lemma_owned_index(earlier);
        }
        if size_of::<T>() > 0 {
            assert forall|earlier: Handle<T>| #[trigger] self.owns(earlier) implies after.slot(
                earlier,
            ) == self.slot(earlier) by {
                self.lemma_owned_index(earlier);
            }
        }
    }
}

} // verus!
