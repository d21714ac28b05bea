use circuit_pool::util::pool::{AsPool, Handle, Pool, PoolError, ARENA_SIZE_BYTES};

#[test]
fn three_values_fill_a_pool_of_twenty_four_bytes() {
    let mut pool: Pool<u64, u64> = Pool::with_capacity(24).unwrap();
    let h0 = pool.add(10).unwrap();
    let h1 = pool.add(20).unwrap();
    let h2 = pool.add(30).unwrap();
    assert_eq!(*pool.get(h0), 10);
    assert_eq!(*pool.get(h1), 20);
    assert_eq!(*pool.get(h2), 30);
    assert_eq!(pool.add(40), Err(PoolError::ArenaFull));
    assert_eq!(pool.len(), 3);
    assert_eq!(*pool.get(h0), 10);
    assert_eq!(*pool.get(h1), 20);
    assert_eq!(*pool.get(h2), 30);
}

#[test]
fn a_value_added_is_the_value_got() {
    let mut pool: Pool<String, u8> = Pool::with_capacity(1024).unwrap();
    let first = pool.add("hadamard".to_string()).unwrap();
    assert_eq!(pool.get(first), "hadamard");
    let second = pool.add(String::new()).unwrap();
    assert_eq!(pool.get(second), "");
    assert_eq!(pool.get(first), "hadamard");
}

#[test]
fn handles_are_slot_addresses_one_size_apart() {
    let mut pool: Pool<u32, u8> = Pool::with_capacity(64).unwrap();
    let h0 = pool.add(1).unwrap();
    let h1 = pool.add(2).unwrap();
    let h2 = pool.add(3).unwrap();
    assert_eq!(h1.pointer(), h0.pointer() + 4);
    assert_eq!(h2.pointer(), h0.pointer() + 8);
    assert!(!h0.is_invalid());
    assert!(!h2.is_invalid());
    assert!(h0 != h1);
    assert!(h0 == h0.clone());
    assert!(h1 == Handle::from(h1.pointer()));
}

#[test]
fn metadata_set_is_metadata_got() {
    let mut pool: Pool<u64, String> = Pool::with_capacity(256).unwrap();
    let h0 = pool.add(1).unwrap();
    let h1 = pool.add(2).unwrap();
    assert!(!pool.has_metadata(h0));
    assert!(!pool.has_metadata(h1));
    pool.set_metadata(h0, "zero".to_string());
    assert!(pool.has_metadata(h0));
    assert!(!pool.has_metadata(h1));
    assert_eq!(pool.get_metadata(h0), "zero");
    pool.set_metadata(h1, "one".to_string());
    assert_eq!(pool.get_metadata(h0), "zero");
    assert_eq!(pool.get_metadata(h1), "one");
    pool.set_metadata(h0, "nought".to_string());
    assert_eq!(pool.get_metadata(h0), "nought");
    assert_eq!(pool.get_metadata(h1), "one");
    assert_eq!(*pool.get(h0), 1);
    assert_eq!(*pool.get(h1), 2);
}

#[test]
fn a_duplicate_is_a_copy_that_stands_alone() {
    let mut pool: Pool<u64, u32> = Pool::with_capacity(64).unwrap();
    let source = pool.add(10).unwrap();
    pool.set_metadata(source, 5);
    let copy = pool.duplicate(source).unwrap();
    assert!(copy != source);
    assert_eq!(copy.pointer(), source.pointer() + 8);
    assert_eq!(*pool.get(copy), 10);
    assert_eq!(*pool.get_metadata(copy), 5);
    assert_eq!(pool.len(), 2);
    pool.set_metadata(copy, 9);
    assert_eq!(*pool.get_metadata(source), 5);
    assert_eq!(*pool.get_metadata(copy), 9);
    pool.set_metadata(source, 1);
    assert_eq!(*pool.get_metadata(source), 1);
    assert_eq!(*pool.get_metadata(copy), 9);
    *pool.get_mut(copy) = 11;
    assert_eq!(*pool.get(source), 10);
    assert_eq!(*pool.get(copy), 11);
}

#[test]
fn a_duplicate_needs_room() {
    let mut pool: Pool<u64, u32> = Pool::with_capacity(8).unwrap();
    let source = pool.add(10).unwrap();
    pool.set_metadata(source, 5);
    assert_eq!(pool.duplicate(source), Err(PoolError::ArenaFull));
    assert_eq!(pool.len(), 1);
    assert_eq!(*pool.get(source), 10);
    assert_eq!(*pool.get_metadata(source), 5);
}

#[test]
fn the_smaller_of_the_two_arenas_decides_when_the_pool_is_full() {
    let mut pool: Pool<u8, u64> = Pool::with_capacity(16).unwrap();
    assert!(pool.add(1).is_ok());
    assert!(pool.add(2).is_ok());
    assert_eq!(pool.add(3), Err(PoolError::ArenaFull));
    assert_eq!(pool.len(), 2);
    let mut pool: Pool<u64, u8> = Pool::with_capacity(16).unwrap();
    assert!(pool.add(1).is_ok());
    assert!(pool.add(2).is_ok());
    assert_eq!(pool.add(3), Err(PoolError::ArenaFull));
    assert_eq!(pool.len(), 2);
}

#[test]
fn a_value_is_changed_in_place() {
    let mut pool: Pool<Vec<u8>, u8> = Pool::with_capacity(1024).unwrap();
    let first = pool.add(vec![1, 2]).unwrap();
    let second = pool.add(vec![3]).unwrap();
    pool.get_mut(first).push(9);
    assert_eq!(pool.get(first), &vec![1, 2, 9]);
    assert_eq!(pool.get(second), &vec![3]);
}

#[test]
fn the_array_holds_the_handles_in_the_order_given_out() {
    let mut pool: Pool<u16, u8> = Pool::with_capacity(64).unwrap();
    let empty = pool.as_array();
    assert_eq!(empty.len(), 0);
    assert!(empty.is_empty());
    assert!(empty.last().is_none());
    let h0 = pool.add(7).unwrap();
    let h1 = pool.add(8).unwrap();
    let h2 = pool.add(9).unwrap();
    let array = pool.as_array();
    assert_eq!(array.len(), 3);
    assert!(!array.is_empty());
    assert!(array.at(0) == h0);
    assert!(array.at(1) == h1);
    assert!(array.at(2) == h2);
    assert!(array.last() == Some(h2));
    assert_eq!(empty.len(), 0);
    let h3 = pool.add(10).unwrap();
    assert_eq!(array.len(), 3);
    assert!(pool.as_array().last() == Some(h3));
    assert_eq!(pool.as_array().len(), 4);
}

#[test]
fn walking_an_array_twice_yields_the_same_handles() {
    let mut pool: Pool<u64, u8> = Pool::with_capacity(64).unwrap();
    let given = vec![pool.add(1).unwrap(), pool.add(2).unwrap(), pool.add(3).unwrap()];
    let array = pool.as_array();
    let mut first = Vec::new();
    let mut walk = array.into_iter();
    assert_eq!(walk.len(), 3);
    while let Some(handle) = walk.next() {
        first.push(handle);
    }
    assert!(walk.next().is_none());
    assert_eq!(walk.len(), 3);
    let mut second = Vec::new();
    let mut walk = array.clone().into_iter();
    while let Some(handle) = walk.next() {
        second.push(handle);
    }
    assert_eq!(first.len(), 3);
    assert!(first == given);
    assert!(second == given);
}

#[test]
fn a_pool_knows_the_handles_it_gave_out() {
    let mut pool: Pool<u64, u8> = Pool::with_capacity(64).unwrap();
    let mut other: Pool<u64, u8> = Pool::with_capacity(64).unwrap();
    let mine = pool.add(1).unwrap();
    let theirs = other.add(1).unwrap();
    assert!(pool.contains(mine));
    assert!(!pool.contains(theirs));
    assert!(other.contains(theirs));
    assert!(!other.contains(mine));
    assert!(!pool.contains(Handle::from(0)));
    assert!(!pool.contains(Handle::from(mine.pointer() + 1)));
    assert!(!pool.contains(Handle::from(mine.pointer() + 8)));
    assert!(!pool.contains(Handle::from(mine.pointer() - 8)));
}

#[test]
fn the_null_handle_and_a_misaligned_handle_are_invalid() {
    let null: Handle<u64> = Handle::from(0);
    assert!(null.is_invalid());
    assert_eq!(null.pointer(), 0);
    let odd: Handle<u64> = Handle::from(4097);
    assert!(odd.is_invalid());
    let even: Handle<u64> = Handle::new(4096);
    assert!(!even.is_invalid());
    assert_eq!(even.pointer(), 4096);
    let byte: Handle<u8> = Handle::from(4097);
    assert!(!byte.is_invalid());
}

#[test]
fn a_pool_of_values_without_size_is_never_full() {
    let mut pool: Pool<(), ()> = Pool::with_capacity(0).unwrap();
    let first = pool.add(()).unwrap();
    let second = pool.add(()).unwrap();
    assert!(first == second);
    assert_eq!(first.pointer(), 0);
    assert_eq!(pool.len(), 2);
    assert_eq!(*pool.get(first), ());
    pool.set_metadata(first, ());
    assert_eq!(*pool.get_metadata(second), ());
    let copy = pool.duplicate(first).unwrap();
    assert!(copy == first);
    assert_eq!(pool.len(), 3);
    assert_eq!(pool.as_array().len(), 3);
    assert!(pool.as_array().at(2) == first);
}

#[test]
fn the_default_pool_has_the_default_budget() {
    assert_eq!(ARENA_SIZE_BYTES, 64 * 1024 * 1024);
    let mut pool: Pool<u64, u64> = Pool::new().unwrap();
    let first = pool.add(1).unwrap();
    pool.set_metadata(first, 2);
    assert_eq!(*pool.get(first), 1);
    assert_eq!(*pool.get_metadata(first), 2);
}

#[test]
fn a_budget_that_cannot_be_reserved_is_an_error() {
    assert!(matches!(Pool::<u64, u8>::with_capacity(usize::MAX), Err(PoolError::Reservation)));
    assert!(matches!(Pool::<u8, u64>::with_capacity(usize::MAX), Err(PoolError::Reservation)));
    assert!(Pool::<(), ()>::with_capacity(usize::MAX).is_ok());
}

struct Circuit {
    gates: Pool<u64, u32>,
}

impl AsPool<u64, u32> for Circuit {
    fn as_pool_ref(&self) -> &Pool<u64, u32> {
        &self.gates
    }

    fn as_pool_mut(&mut self) -> &mut Pool<u64, u32> {
        &mut self.gates
    }
}

#[test]
fn what_holds_a_pool_is_used_as_the_pool() {
    let mut circuit = Circuit { gates: Pool::with_capacity(16).unwrap() };
    let first = AsPool::add(&mut circuit, 3).unwrap();
    circuit.set_metadata(first, 30);
    assert_eq!(*circuit.get_metadata(first), 30);
    let copy = circuit.duplicate(first).unwrap();
    assert!(copy != first);
    assert_eq!(*circuit.get_metadata(copy), 30);
    assert_eq!(*circuit.as_pool_ref().get(copy), 3);
    assert_eq!(AsPool::add(&mut circuit, 4), Err(PoolError::ArenaFull));
    assert_eq!(circuit.as_pool_ref().len(), 2);
    let mut pool: Pool<u64, u32> = Pool::with_capacity(16).unwrap();
    let first = AsPool::add(&mut pool, 5).unwrap();
    AsPool::set_metadata(&mut pool, first, 50);
    assert_eq!(*AsPool::get_metadata(&pool, first), 50);
    assert_eq!(*AsPool::duplicate(&mut pool, first).map(|copy| pool.get(copy)).unwrap(), 5);
}
