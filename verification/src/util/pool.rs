//! Pools: values of one type in an arena, each paired with a metadata record
//! in a second arena.

pub use crate::util::arena::{MMapArena, PoolError};
pub use crate::util::handle::Handle;
pub use crate::util::handle_array::{HandleArray, HandleArrayIterator};
use crate::util::handle_array::{lemma_slot_handles, lemma_slot_handles_push, slot_handles};
use crate::util::layout::{lemma_slot_index, slot_address};
use vstd::layout::size_of;
use vstd::prelude::*;

verus! {

/// The default budget of an arena, in bytes: 64 MiB.
pub const ARENA_SIZE_BYTES: usize = 64 * 1024 * 1024;

/// Values of one type, each paired with a metadata record that is written
/// separately.
///
/// Two arenas of the same budget in bytes stand side by side: one for the
/// values, one for the records. The record of a value sits at the index of
/// the value's slot, and holds nothing until it is first set.
pub struct Pool<Value, Metadata> {
    contents: MMapArena<Value>,
    metadata: MMapArena<Metadata>,
}

impl<Value, Metadata> Pool<Value, Metadata> {
    /// The arena of the values.
    pub closed spec fn contents(&self) -> MMapArena<Value> {
        self.contents
    }

    /// The arena of the records.
    pub closed spec fn metadata(&self) -> MMapArena<Metadata> {
        self.metadata
    }

    /// The number of values added so far.
    pub open spec fn count(&self) -> nat {
        self.contents().count()
    }

    /// Whether `handle` was given out by this pool.
    pub open spec fn owns(&self, handle: Handle<Value>) -> bool {
        self.contents().owns(handle)
    }

    /// The index of the slot that `handle` names.
    pub open spec fn index_of(&self, handle: Handle<Value>) -> int {
        self.contents().index_of_spec(handle)
    }

    /// The value that `handle` names.
    pub open spec fn value(&self, handle: Handle<Value>) -> Value {
        self.contents().value(handle)
    }

    /// The record of the value that `handle` names: `None` until it is set.
    pub open spec fn record(&self, handle: Handle<Value>) -> Option<Metadata> {
        self.metadata()@[self.index_of(handle)]
    }

    /// The handles given out so far, in the order they were given out.
    pub open spec fn handles(&self) -> Seq<Handle<Value>> {
        slot_handles::<Value>(self.contents().base(), self.count())
    }

    /// Whether one more value and its record fit in the two budgets.
    pub open spec fn has_room(&self) -> bool {
        self.contents().has_room() && self.metadata().has_room()
    }

    /// The pool's invariant: both arenas are sound, every value has a record
    /// slot, and every slot that a handle names holds a value.
    pub open spec fn wf(&self) -> bool {
        &&& self.contents().wf()
        &&& self.metadata().wf()
        &&& self.metadata().count() == self.contents().count()
        &&& self.contents().filled()
    }

    /// Whether `after` has its two arenas where this pool has them, with the
    /// same budgets.
    pub open spec fn same_spans(&self, after: Self) -> bool {
        self.contents().same_span(after.contents()) && self.metadata().same_span(after.metadata())
    }

    /// What adding `value` to this pool comes to: with room for one more slot
    /// in both arenas, `after` is this pool with one slot more in each, the
    /// new handle names the new value slot, which holds `value`, and the new
    /// record slot holds nothing; without room, `ArenaFull` and no change.
    pub open spec fn added(
        &self,
        value: Value,
        after: Self,
        outcome: Result<Handle<Value>, PoolError>,
    ) -> bool {
        match outcome {
            Ok(handle) => {
                &&& self.has_room()
                &&& self.same_spans(after)
                &&& handle@ == self.contents().slot_address(self.count() as int)
                &&& after.contents()@ == self.contents()@.push(None).update(
                    after.index_of(handle),
                    Some(value),
                )
                &&& after.metadata()@ == self.metadata()@.push(None)
            },
            Err(error) => {
                &&& !self.has_room()
                &&& error == PoolError::ArenaFull
                &&& after.contents() == self.contents()
                &&& after.metadata() == self.metadata()
            },
        }
    }

    /// What setting the record of `handle` to `metadata` comes to: `after` is
    /// this pool with that one record slot holding `metadata`.
    pub open spec fn metadata_set(&self, handle: Handle<Value>, metadata: Metadata, after: Self) -> bool {
        &&& self.same_spans(after)
        &&& after.contents() == self.contents()
        &&& after.metadata()@ == self.metadata()@.update(self.index_of(handle), Some(metadata))
    }

    /// What duplicating `handle` comes to: with room, `after` is this pool
    /// with one slot more in each arena, which hold what the value slot and
    /// the record slot of `handle` held, and the new handle names them;
    /// without room, `ArenaFull` and no change.
    pub open spec fn duplicated(
        &self,
        handle: Handle<Value>,
        after: Self,
        outcome: Result<Handle<Value>, PoolError>,
    ) -> bool {
        match outcome {
            Ok(copy) => {
                &&& self.has_room()
                &&& self.same_spans(after)
                &&& copy@ == self.contents().slot_address(self.count() as int)
                &&& after.contents()@ == self.contents()@.push(None).update(
                    after.index_of(copy),
                    Some(self.value(handle)),
                )
                &&& after.metadata()@ == self.metadata()@.push(None).update(
                    after.index_of(copy),
                    self.record(handle),
                )
            },
            Err(error) => {
                &&& !self.has_room()
                &&& error == PoolError::ArenaFull
                &&& after.contents() == self.contents()
                &&& after.metadata() == self.metadata()
            },
        }
    }

    /// An empty pool whose two arenas each have a budget of `capacity` bytes.
    ///
    /// Made whenever both arenas are: always, where neither type has a size.
    pub fn with_capacity(capacity: usize) -> (made: Result<Self, PoolError>)
        ensures
            size_of::<Value>() == 0 && size_of::<Metadata>() == 0 ==> made is Ok,
            match made {
                Ok(pool) => {
                    &&& pool.wf()
                    &&& pool.count() == 0
                    &&& pool.contents().capacity() == capacity
                    &&& pool.metadata().capacity() == capacity
                },
                Err(error) => error == PoolError::Reservation,
            },
    {
        let contents = match MMapArena::<Value>::new(capacity) {
            Ok(arena) => arena,
            Err(error) => {
                return Err(error);
            },
        };
        let metadata = match MMapArena::<Metadata>::new(capacity) {
            Ok(arena) => arena,
            Err(error) => {
                return Err(error);
            },
        };
        Ok(Pool { contents, metadata })
    }

    /// An empty pool with the default budget, `ARENA_SIZE_BYTES`, for each of
    /// its two arenas.
    pub fn new() -> (made: Result<Self, PoolError>)
        ensures
            size_of::<Value>() == 0 && size_of::<Metadata>() == 0 ==> made is Ok,
            match made {
                Ok(pool) => {
                    &&& pool.wf()
                    &&& pool.count() == 0
                    &&& pool.contents().capacity() == ARENA_SIZE_BYTES
                    &&& pool.metadata().capacity() == ARENA_SIZE_BYTES
                },
                Err(error) => error == PoolError::Reservation,
            },
    {
        Self::with_capacity(ARENA_SIZE_BYTES)
    }

    /// The number of values added so far.
    pub fn len(&self) -> (count: usize)
        ensures
            count == self.count(),
    {
        self.contents.len()
    }

    /// Whether `handle` was given out by this pool.
    pub fn contains(&self, handle: Handle<Value>) -> (owned: bool)
        requires
            self.wf(),
        ensures
            owned == self.owns(handle),
    {
        self.contents.contains(handle)
    }

    /// Adds `value` to the pool and gives the handle of its slot. The record
    /// of the value has its slot too, and holds nothing yet.
    ///
    /// `Ok` exactly when both arenas have room for one more slot; if not, the
    /// error is `ArenaFull` and the pool is as before.
    pub fn add(&mut self, value: Value) -> (added: Result<Handle<Value>, PoolError>)
        requires
            old(self).wf(),
        ensures
            final(self).wf(),
            old(self).added(value, *final(self), added),
            added matches Ok(handle) ==> {
                &&& final(self).owns(handle)
                &&& final(self).value(handle) == value
                &&& final(self).record(handle) is None || size_of::<Value>() == 0
                &&& final(self).handles() == old(self).handles().push(handle)
            },
    {
        if self.contents.is_full() || self.metadata.is_full() {
            return Err(PoolError::ArenaFull);
        }
        let handle = match self.contents.add(value) {
            Ok(handle) => handle,
            Err(error) => {
                return Err(error);
            },
        };
        match self.metadata.allocate() {
            Ok(_) => {},
            Err(error) => {
                return Err(error);
            },
        }
        proof {
            old(self).lemma_added(value, *self, handle);
        }
        Ok(handle)
    }

    /// The value that `handle` names.
    pub fn get(&self, handle: Handle<Value>) -> (value: &Value)
        requires
            self.wf(),
            self.owns(handle),
        ensures
            *value == self.value(handle),
    {
        proof {
            self.contents().lemma_owned_index(handle);
        }
        self.contents.get(handle)
    }

    /// The value that `handle` names, to be changed in place. Nothing else in
    /// the pool changes.
    pub fn get_mut(&mut self, handle: Handle<Value>) -> (value: &mut Value)
        requires
            old(self).wf(),
            old(self).owns(handle),
        ensures
            *value == old(self).value(handle),
            final(self).wf(),
            old(self).same_spans(*final(self)),
            final(self).contents()@ == old(self).contents()@.update(
                old(self).index_of(handle),
                Some(*final(value)),
            ),
            final(self).metadata() == old(self).metadata(),
            final(self).value(handle) == *final(value),
    {
        proof {
            self.contents().lemma_owned_index(handle);
        }
        self.contents.get_mut(handle)
    }

    /// Whether the record of the value that `handle` names has been set.
    pub fn has_metadata(&self, handle: Handle<Value>) -> (set: bool)
        requires
            self.wf(),
            self.owns(handle),
        ensures
            set == (self.record(handle) is Some),
    {
        let index: usize = self.contents.index_of(handle);
        self.metadata.is_written(index)
    }

    /// The record of the value that `handle` names, which must have been set.
    pub fn get_metadata(&self, handle: Handle<Value>) -> (metadata: &Metadata)
        requires
            self.wf(),
            self.owns(handle),
            self.record(handle) is Some,
        ensures
            Some(*metadata) == self.record(handle),
    {
        let index: usize = self.contents.index_of(handle);
        self.metadata.at_index_ref(index)
    }

    /// Sets the record of the value that `handle` names to `metadata`. No
    /// value changes, and no record at another index.
    pub fn set_metadata(&mut self, handle: Handle<Value>, metadata: Metadata)
        requires
            old(self).wf(),
            old(self).owns(handle),
        ensures
            final(self).wf(),
            old(self).metadata_set(handle, metadata, *final(self)),
            final(self).record(handle) == Some(metadata),
    {
        let index: usize = self.contents.index_of(handle);
        self.metadata.store(index, metadata);
    }

    /// Copies the value that `handle` names, and its record, which must have
    /// been set, into a new slot each, and gives the handle of the copy.
    ///
    /// `Ok` exactly when both arenas have room for one more slot; if not, the
    /// error is `ArenaFull` and the pool is as before. The copy stands for
    /// itself: where the value type has a size its handle differs from
    /// `handle`, and a later change to the record of one of the two leaves
    /// the record of the other as it is.
    pub fn duplicate(&mut self, handle: Handle<Value>) -> (copied: Result<Handle<Value>, PoolError>) where
        Value: Copy,
        Metadata: Copy,

        requires
            old(self).wf(),
            old(self).owns(handle),
            old(self).record(handle) is Some,
        ensures
            final(self).wf(),
            old(self).duplicated(handle, *final(self), copied),
            copied matches Ok(copy) ==> {
                &&& final(self).owns(copy)
                &&& final(self).owns(handle)
                &&& final(self).value(copy) == old(self).value(handle)
                &&& final(self).record(copy) == old(self).record(handle)
                &&& final(self).value(handle) == old(self).value(handle)
                &&& final(self).record(handle) == old(self).record(handle)
                &&& final(self).handles() == old(self).handles().push(copy)
                &&& size_of::<Value>() > 0 ==> copy != handle
            },
    {
        let value: Value = *self.get(handle);
        let metadata: Metadata = *self.get_metadata(handle);
        let copy = match self.add(value) {
            Ok(copy) => copy,
            Err(error) => {
                return Err(error);
            },
        };
        self.set_metadata(copy, metadata);
        proof {
            old(self).lemma_duplicated(handle, *self, copy);
        }
        Ok(copy)
    }

    /// The handles given out so far, in order, as they stand at this moment.
    pub fn as_array(&self) -> (array: HandleArray<Value>)
        requires
            self.wf(),
        ensures
            array.wf(),
            array@ == self.handles(),
    {
        let (start, length) = self.contents.as_slice();
        assert(length * size_of::<Value>() >= 0) by (nonlinear_arith);
        HandleArray::new(start, length)
    }

    /// After a value is duplicated, the new handle names a value and a record
    /// equal to those that `handle` names, which `handle` still names, and
    /// the handles given out are those given out before and then the new one.
    /// Where the value type has a size, the new handle differs from `handle`
    /// and from every other earlier one, and whatever an earlier handle named
    /// it still names.
    pub proof fn lemma_duplicated(&self, handle: Handle<Value>, after: Self, copy: Handle<Value>)
        requires
            self.wf(),
            after.wf(),
            self.owns(handle),
            self.duplicated(handle, after, Ok(copy)),
        ensures
            after.count() == self.count() + 1,
            after.owns(copy),
            after.owns(handle),
            after.value(copy) == self.value(handle),
            after.record(copy) == self.record(handle),
            after.value(handle) == self.value(handle),
            after.record(handle) == self.record(handle),
            after.handles() == self.handles().push(copy),
            size_of::<Value>() > 0 ==> {
                &&& copy != handle
                &&& !self.owns(copy)
                &&& after.index_of(copy) == self.count()
                &&& forall|earlier: Handle<Value>| #[trigger]
                    self.owns(earlier) ==> after.owns(earlier) && after.value(earlier)
                        == self.value(earlier) && after.record(earlier) == self.record(earlier)
            },
    {
        let count = self.count() as int;
        if size_of::<Value>() > 0 {
            lemma_slot_index::<Value>(after.contents().base(), count, copy);
        }
        assert(after.count() == count + 1);
        assert(copy@ == slot_address::<Value>(after.contents().base(), count));
        after.contents().lemma_owned_index(copy);
        self.contents().lemma_owned_index(handle);
        if self.owns(copy) {
            self.contents().lemma_owned_index(copy);
        }
        lemma_slot_handles_push::<Value>(self.contents().base(), self.count(), copy);
        if size_of::<Value>() > 0 {
            assert forall|earlier: Handle<Value>| #[trigger] self.owns(earlier) implies after.owns(
                earlier,
            ) && after.value(earlier) == self.value(earlier) && after.record(earlier) == self.record(
                earlier,
            ) by {
                self.contents().lemma_owned_index(earlier);
            }
        }
    }

    /// The handles given out are the addresses of the slots handed out, in
    /// order, and a handle is owned exactly when it is one of them.
    pub proof fn lemma_handles(&self, handle: Handle<Value>)
        requires
            self.wf(),
        ensures
            self.handles().len() == self.count(),
            forall|index: int|
                0 <= index < self.count() ==> (#[trigger] self.handles()[index])@
                    == self.contents().slot_address(index),
            self.owns(handle) <==> self.handles().contains(handle),
    {
        lemma_slot_handles::<Value>(self.contents().base(), self.count(), handle);
    }

    /// After the record of `handle` is set to `metadata`, that is the record
    /// that `handle` names; every handle names the value that it named; and
    /// where the value type has a size, every other handle names the record
    /// that it named.
    pub proof fn lemma_metadata_set(
        &self,
        handle: Handle<Value>,
        metadata: Metadata,
        after: Self,
        other: Handle<Value>,
    )
        requires
            self.wf(),
            self.owns(handle),
            self.owns(other),
            self.metadata_set(handle, metadata, after),
        ensures
            after.record(handle) == Some(metadata),
            after.owns(other),
            after.value(other) == self.value(other),
            size_of::<Value>() > 0 && other != handle ==> after.record(other) == self.record(other),
    {
        self.contents().lemma_owned_index(handle);
        self.contents().lemma_owned_index(other);
        if size_of::<Value>() > 0 {
            self.contents().lemma_distinct_slots(other, handle);
        }
    }

    /// A copy stands for itself. After `handle` is duplicated in a pool whose
    /// value type has a size, setting the record of the copy leaves `handle`
    /// with the value and the record that it had, and setting the record of
    /// `handle` leaves the copy with them.
    pub proof fn lemma_copy_stands_alone(
        &self,
        handle: Handle<Value>,
        copied: Self,
        copy: Handle<Value>,
        metadata: Metadata,
        after: Self,
    )
        requires
            size_of::<Value>() > 0,
            self.wf(),
            copied.wf(),
            self.owns(handle),
            self.duplicated(handle, copied, Ok(copy)),
            copied.metadata_set(copy, metadata, after) || copied.metadata_set(
                handle,
                metadata,
                after,
            ),
        ensures
            copied.metadata_set(copy, metadata, after) ==> after.value(handle) == self.value(handle)
                && after.record(handle) == self.record(handle),
            copied.metadata_set(handle, metadata, after) ==> after.value(copy) == self.value(handle)
                && after.record(copy) == self.record(handle),
    {
        self.lemma_duplicated(handle, copied, copy);
        if copied.metadata_set(copy, metadata, after) {
            copied.lemma_metadata_set(copy, metadata, after, handle);
        }
        if copied.metadata_set(handle, metadata, after) {
            copied.lemma_metadata_set(handle, metadata, after, copy);
        }
    }

    /// After a value is added, its handle names it, its record is not set,
    /// the handles given out are those given out before and then the new one,
    /// and whatever an earlier handle named it still names. Where the value
    /// type has a size, the new handle differs from every earlier one.
    pub proof fn lemma_added(&self, value: Value, after: Self, handle: Handle<Value>)
        requires
            self.wf(),
            after.wf(),
            self.added(value, after, Ok(handle)),
        ensures
            after.count() == self.count() + 1,
            after.owns(handle),
            after.value(handle) == value,
            after.handles() == self.handles().push(handle),
            forall|earlier: Handle<Value>| #[trigger]
                self.owns(earlier) ==> after.owns(earlier) && after.index_of(earlier)
                    == self.index_of(earlier),
            size_of::<Value>() > 0 ==> {
                &&& !self.owns(handle)
                &&& after.index_of(handle) == self.count()
                &&& after.record(handle) is None
                &&& after.contents()@ == self.contents()@.push(Some(value))
                &&& forall|earlier: Handle<Value>| #[trigger]
                    self.owns(earlier) ==> after.value(earlier) == self.value(earlier)
                        && after.record(earlier) == self.record(earlier)
            },
    {
        let size = size_of::<Value>();
        let count = self.count() as int;
        if size > 0 {
            lemma_slot_index::<Value>(after.contents().base(), count, handle);
        }
        assert(after.count() == count + 1);
        assert(handle@ == slot_address::<Value>(after.contents().base(), count));
        after.contents().lemma_owned_index(handle);
        if self.owns(handle) {
            self.contents().lemma_owned_index(handle);
        }
        assert forall|earlier: Handle<Value>| #[trigger] self.owns(earlier) implies after.owns(earlier)
            && after.index_of(earlier) == self.index_of(earlier) by {
            self.contents().lemma_owned_index(earlier);
        }
        lemma_slot_handles_push::<Value>(self.contents().base(), self.count(), handle);
        if size > 0 {
            assert(after.contents()@ =~= self.contents()@.push(Some(value)));
            assert forall|earlier: Handle<Value>| #[trigger] self.owns(earlier) implies after.value(
                earlier,
            ) == self.value(earlier) && after.record(earlier) == self.record(earlier) by {
                self.contents().lemma_owned_index(earlier);
            }
        }
    }
}

/// Something that holds a pool, and can be used as that pool.
pub trait AsPool<Value, Metadata>: Sized {
    /// The pool that `self` holds. An implementation says which it is.
    open spec fn pool(&self) -> Pool<Value, Metadata> {
        arbitrary()
    }

    /// The pool that `self` holds.
    fn as_pool_ref(&self) -> (pool: &Pool<Value, Metadata>)
        ensures
            *pool == self.pool(),
    ;

    /// The pool that `self` holds, to be changed in place.
    fn as_pool_mut(&mut self) -> (pool: &mut Pool<Value, Metadata>)
        ensures
            *pool == old(self).pool(),
            final(self).pool() == *final(pool),
    ;

    /// Adds `value` to the pool, as `Pool::add` does.
    fn add(&mut self, value: Value) -> (added: Result<Handle<Value>, PoolError>)
        requires
            old(self).pool().wf(),
        ensures
            final(self).pool().wf(),
            old(self).pool().added(value, final(self).pool(), added),
    {
        self.as_pool_mut().add(value)
    }

    /// Copies the value that `handle` names, and its record, as
    /// `Pool::duplicate` does.
    fn duplicate(&mut self, handle: Handle<Value>) -> (copied: Result<Handle<Value>, PoolError>) where
        Value: Copy,
        Metadata: Copy,

        requires
            old(self).pool().wf(),
            old(self).pool().owns(handle),
            old(self).pool().record(handle) is Some,
        ensures
            final(self).pool().wf(),
            old(self).pool().duplicated(handle, final(self).pool(), copied),
    {
        self.as_pool_mut().duplicate(handle)
    }

    /// The record of the value that `handle` names, which must have been set.
    fn get_metadata<'a>(&'a self, handle: Handle<Value>) -> (metadata: &'a Metadata) where
        Value: 'a,

        requires
            self.pool().wf(),
            self.pool().owns(handle),
            self.pool().record(handle) is Some,
        ensures
            Some(*metadata) == self.pool().record(handle),
    {
        self.as_pool_ref().get_metadata(handle)
    }

    /// Sets the record of the value that `handle` names, as
    /// `Pool::set_metadata` does.
    fn set_metadata(&mut self, handle: Handle<Value>, metadata: Metadata)
        requires
            old(self).pool().wf(),
            old(self).pool().owns(handle),
        ensures
            final(self).pool().wf(),
            old(self).pool().metadata_set(handle, metadata, final(self).pool()),
    {
        self.as_pool_mut().set_metadata(handle, metadata)
    }
}

impl<Value, Metadata> AsPool<Value, Metadata> for Pool<Value, Metadata> {
    open spec fn pool(&self) -> Pool<Value, Metadata> {
        *self
    }

    fn as_pool_ref(&self) -> (pool: &Pool<Value, Metadata>) {
        self
    }

    fn as_pool_mut(&mut self) -> (pool: &mut Pool<Value, Metadata>) {
        self
    }
}

} // verus!
