use circuit_pool::util::arena::{MMapArena, PoolError};
use circuit_pool::util::handle::Handle;
use memmap2::MmapMut;

fn allocations_until_full<T: std::fmt::Debug>(capacity: usize) -> usize {
    let mut arena: MMapArena<T> = MMapArena::new(capacity).unwrap();
    let mut given = 0;
    while arena.allocate().is_ok() {
        given += 1;
    }
    assert_eq!(arena.allocate(), Err(PoolError::ArenaFull));
    assert_eq!(arena.len(), given);
    assert!(arena.is_full());
    given
}

#[test]
fn an_arena_gives_as_many_slots_as_fit_whole_in_its_budget() {
    assert_eq!(allocations_until_full::<u64>(24), 3);
    assert_eq!(allocations_until_full::<u64>(8), 1);
    assert_eq!(allocations_until_full::<u64>(31), 3);
    assert_eq!(allocations_until_full::<u64>(32), 4);
    assert_eq!(allocations_until_full::<u32>(10), 2);
    assert_eq!(allocations_until_full::<u8>(5), 5);
    assert_eq!(allocations_until_full::<[u8; 3]>(10), 3);
    assert_eq!(allocations_until_full::<(u64, u64)>(4096), 256);
}

#[test]
fn a_budget_below_one_slot_gives_none() {
    assert_eq!(allocations_until_full::<u64>(7), 0);
    assert_eq!(allocations_until_full::<u64>(0), 0);
}

#[test]
fn an_arena_of_slots_without_size_always_has_room() {
    let mut arena: MMapArena<()> = MMapArena::new(0).unwrap();
    for given in 0..1000 {
        assert!(!arena.is_full());
        let handle = arena.allocate().unwrap();
        assert_eq!(handle.pointer(), 0);
        assert_eq!(arena.len(), given + 1);
        assert_eq!(arena.index_of(handle), 0);
    }
    let mut arena: MMapArena<[u64; 0]> = MMapArena::new(usize::MAX).unwrap();
    let first = arena.allocate().unwrap();
    let second = arena.allocate().unwrap();
    assert!(first == second);
    assert!(arena.contains(first));
}

#[test]
fn a_slot_is_found_again_by_its_handle_and_by_its_index() {
    let mut arena: MMapArena<u32> = MMapArena::new(64).unwrap();
    let h0 = arena.allocate().unwrap();
    let h1 = arena.allocate().unwrap();
    let h2 = arena.allocate().unwrap();
    assert_eq!(arena.index_of(h0), 0);
    assert_eq!(arena.index_of(h1), 1);
    assert_eq!(arena.index_of(h2), 2);
    assert!(arena.at(0) == h0);
    assert!(arena.at(1) == h1);
    assert!(arena.at(2) == h2);
    assert_eq!(arena.as_slice(), (h0.pointer(), 3));
    assert!(arena.contains(h2));
    assert!(!arena.contains(Handle::from(h2.pointer() + 4)));
    assert!(!arena.contains(Handle::from(h0.pointer() + 2)));
}

#[test]
fn a_slot_holds_nothing_until_it_is_written() {
    let mut arena: MMapArena<u32> = MMapArena::new(64).unwrap();
    let h0 = arena.allocate().unwrap();
    let h1 = arena.allocate().unwrap();
    assert!(!arena.is_written(0));
    assert!(!arena.is_written(1));
    arena.store(1, 11);
    assert!(!arena.is_written(0));
    assert!(arena.is_written(1));
    assert_eq!(*arena.at_index_ref(1), 11);
    assert_eq!(*arena.get(h1), 11);
    arena.store(0, 10);
    *arena.at_index_mut(1) += 1;
    assert_eq!(*arena.get(h0), 10);
    assert_eq!(*arena.get(h1), 12);
    *arena.get_mut(h0) = 20;
    assert_eq!(*arena.at_index_ref(0), 20);
    assert_eq!(*arena.at_index_ref(1), 12);
}

#[test]
fn adding_writes_the_new_slot() {
    let mut arena: MMapArena<u64> = MMapArena::new(16).unwrap();
    let h0 = arena.add(5).unwrap();
    let h1 = arena.add(6).unwrap();
    assert_eq!(arena.add(7), Err(PoolError::ArenaFull));
    assert_eq!(*arena.get(h0), 5);
    assert_eq!(*arena.get(h1), 6);
    assert_eq!(arena.len(), 2);
}

#[test]
fn an_arena_over_a_region_has_the_length_of_the_region_as_its_budget() {
    let region = MmapMut::map_anon(40).unwrap();
    let base = region.as_ptr() as usize;
    let mut arena: MMapArena<u64> = MMapArena::with_region(region, base).unwrap();
    let first = arena.allocate().unwrap();
    assert_eq!(first.pointer(), base);
    for _ in 1..5 {
        assert!(arena.allocate().is_ok());
    }
    assert_eq!(arena.allocate(), Err(PoolError::ArenaFull));
}

#[test]
fn a_new_arena_lays_its_slots_out_from_a_valid_address() {
    let mut arena: MMapArena<u64> = MMapArena::new(4096).unwrap();
    let first = arena.allocate().unwrap();
    assert!(first.pointer() != 0);
    assert_eq!(first.pointer() % 8, 0);
    assert!(!first.is_invalid());
    assert_eq!(arena.as_slice(), (first.pointer(), 1));
}

#[test]
fn a_layout_that_slots_cannot_be_laid_out_in_is_refused() {
    let region = MmapMut::map_anon(64).unwrap();
    assert!(matches!(MMapArena::<u64>::with_region(region, 0), Err(PoolError::Reservation)));
    let region = MmapMut::map_anon(64).unwrap();
    assert!(matches!(MMapArena::<u64>::with_region(region, 4097), Err(PoolError::Reservation)));
    let region = MmapMut::map_anon(64).unwrap();
    assert!(matches!(
        MMapArena::<u64>::with_region(region, usize::MAX - 63),
        Err(PoolError::Reservation)
    ));
    let region = MmapMut::map_anon(64).unwrap();
    assert!(matches!(MMapArena::<()>::with_region(region, 4096), Err(PoolError::Reservation)));
    let region = MmapMut::map_anon(64).unwrap();
    assert!(MMapArena::<u64>::with_region(region, usize::MAX - 71).is_ok());
}

#[test]
fn a_budget_that_the_system_refuses_is_an_error() {
    assert!(matches!(MMapArena::<u64>::new(usize::MAX), Err(PoolError::Reservation)));
    assert!(matches!(MMapArena::<u8>::new(usize::MAX / 2 + 1), Err(PoolError::Reservation)));
}
