//! Where the slots of an arena lie: the arithmetic of addresses, sizes and
//! indices.

use crate::util::handle::Handle;
use vstd::arithmetic::div_mod::{
    lemma_div_multiples_vanish,
    lemma_fundamental_div_mod,
    lemma_mod_bound,
};
use vstd::layout::{align_of, size_of};
use vstd::prelude::*;

verus! {

/// Whether slots of `T` can be laid out from the address `base` on, within
/// `len` bytes: `T` has a size, `base` is not null and is aligned for `T`,
/// and the last byte still has an address.
pub open spec fn usable<T>(base: usize, len: nat) -> bool {
    &&& size_of::<T>() > 0
    &&& base != 0
    &&& base as nat % align_of::<T>() == 0
    &&& base + len <= usize::MAX
}

/// The address of slot `index` where slots of `T` are laid out from `base` on.
pub open spec fn slot_address<T>(base: usize, index: int) -> int {
    base + index * size_of::<T>()
}

/// Whether `handle` holds the address of one of the first `count` slots of
/// `T` laid out from `base` on.
pub open spec fn names_slot<T>(base: usize, count: nat, handle: Handle<T>) -> bool {
    exists|index: int| 0 <= index < count && handle@ == #[trigger] slot_address::<T>(base, index)
}

/// The index of the slot that `handle` names where slots of `T` are laid out
/// from `base` on: its distance from `base` in slots. Handles of an element
/// type without size all name slot 0.
pub open spec fn slot_index<T>(base: usize, handle: Handle<T>) -> int {
    if size_of::<T>() == 0 {
        0
    } else {
        (handle@ - base) / size_of::<T>() as int
    }
}

/// Where `T` has a size, the address of slot `index` names slot `index` and
/// no other.
pub proof fn lemma_slot_index<T>(base: usize, index: int, handle: Handle<T>)
    requires
        size_of::<T>() > 0,
        handle@ == slot_address::<T>(base, index),
    ensures
        slot_index::<T>(base, handle) == index,
{
    let size = size_of::<T>() as int;
    lemma_div_multiples_vanish(index, size);
    assert(index * size == size * index) by (nonlinear_arith);
}

/// A handle that names one of the first `count` slots names the slot at its
/// index, which is one of them; where `T` has a size it names no other slot,
/// and where `T` has none it is the base itself.
pub proof fn lemma_named_slot<T>(base: usize, count: nat, handle: Handle<T>)
    requires
        names_slot::<T>(base, count, handle),
    ensures
        0 <= slot_index::<T>(base, handle) < count,
        handle@ == slot_address::<T>(base, slot_index::<T>(base, handle)),
        size_of::<T>() > 0 ==> forall|index: int|
            handle@ == #[trigger] slot_address::<T>(base, index) ==> index == slot_index::<T>(
                base,
                handle,
            ),
        size_of::<T>() == 0 ==> handle@ == base,
{
    let witness = choose|index: int|
        0 <= index < count && handle@ == #[trigger] slot_address::<T>(base, index);
    let size = size_of::<T>() as int;
    if size > 0 {
        assert forall|index: int| handle@ == #[trigger] slot_address::<T>(base, index) implies index
            == slot_index::<T>(base, handle) by {
            lemma_slot_index::<T>(base, index, handle);
        }
    } else {
        assert(witness * size == 0) by (nonlinear_arith)
            requires
                size == 0,
        ;
    }
}

/// With slots of `size` bytes, the slot after the first `count` fits in
/// `capacity` bytes exactly when `count` is below the number of whole slots
/// that `capacity` bytes hold.
pub proof fn lemma_room(count: nat, size: nat, capacity: nat)
    requires
        size > 0,
    ensures
        (count + 1) * size <= capacity <==> count < capacity / size,
{
    lemma_fundamental_div_mod(capacity as int, size as int);
    lemma_mod_bound(capacity as int, size as int);
    let whole = capacity as int / size as int;
    if count < whole {
        assert((count + 1) * size <= whole * size) by (nonlinear_arith)
            requires
                count + 1 <= whole,
                size > 0,
        ;
        assert(whole * size == size * whole) by (nonlinear_arith);
    } else {
        assert((count + 1) * size >= (whole + 1) * size) by (nonlinear_arith)
            requires
                count + 1 >= whole + 1,
                size > 0,
        ;
        assert((whole + 1) * size == size * whole + size) by (nonlinear_arith);
    }
}

} // verus!
