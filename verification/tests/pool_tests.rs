use audio::pool::Pool;

#[test]
fn spawn_and_borrow_roundtrip() {
    let mut pool: Pool<u32> = Pool::new();
    let a = pool.spawn(10);
    let b = pool.spawn(20);
    assert!(pool.is_valid_handle(a));
    assert!(pool.is_valid_handle(b));
    assert_eq!(*pool.borrow(a), 10);
    assert_eq!(*pool.borrow(b), 20);
    *pool.borrow_mut(a) = 11;
    assert_eq!(*pool.borrow(a), 11);
}

#[test]
fn freed_handle_is_invalid_and_stays_invalid() {
    let mut pool: Pool<u32> = Pool::new();
    let h = pool.spawn(1);
    assert!(pool.is_valid_handle(h));
    let taken = pool.free(h);
    assert_eq!(taken, Some(1));
    assert!(!pool.is_valid_handle(h));
    // The freed slot may be reused, but under a new generation: the old
    // handle stays dead forever.
    let h2 = pool.spawn(2);
    assert_eq!(h2.index, h.index);
    assert_ne!(h2.generation, h.generation);
    assert!(!pool.is_valid_handle(h));
    assert!(pool.is_valid_handle(h2));
    assert_eq!(*pool.borrow(h2), 2);
}

#[test]
fn free_invalid_handle_is_a_no_op() {
    let mut pool: Pool<u32> = Pool::new();
    let h = pool.spawn(5);
    pool.free(h);
    assert_eq!(pool.free(h), None);
    assert!(!pool.is_valid_handle(h));
}

#[test]
fn try_borrow_distinguishes_valid_and_stale() {
    let mut pool: Pool<i64> = Pool::new();
    let h = pool.spawn(7);
    assert_eq!(pool.try_borrow(h).copied(), Some(7));
    pool.free(h);
    assert!(pool.try_borrow(h).is_none());
    assert!(pool.try_borrow_mut(h).is_none());
}

#[test]
fn take_reserve_blocks_reuse_until_put_back() {
    let mut pool: Pool<u32> = Pool::new();
    let h = pool.spawn(42);
    let (ticket, value) = pool.take_reserve(h);
    assert_eq!(value, 42);
    assert!(!pool.is_valid_handle(h));
    // The reserved slot cannot be taken by a new spawn.
    let other = pool.spawn(7);
    assert_ne!(other.index, h.index);
    let h_back = pool.put_back(ticket, 43);
    assert_eq!(h_back.index, h.index);
    assert_eq!(h_back.generation, h.generation);
    assert!(pool.is_valid_handle(h));
    assert_eq!(*pool.borrow(h), 43);
}

#[test]
fn forget_ticket_releases_the_slot() {
    let mut pool: Pool<u32> = Pool::new();
    let h = pool.spawn(1);
    let (ticket, _) = pool.take_reserve(h);
    pool.forget_ticket(ticket);
    assert!(!pool.is_valid_handle(h));
    // Now the slot can be reused, under a fresh generation.
    let h2 = pool.spawn(9);
    assert_eq!(h2.index, h.index);
    assert_ne!(h2.generation, h.generation);
}

#[test]
fn retain_keeps_matching_entries_under_their_handles() {
    let mut pool: Pool<u32> = Pool::new();
    let a = pool.spawn(1); // keep (odd)
    let b = pool.spawn(2); // free (even)
    let c = pool.spawn(3); // keep (odd)
    pool.retain(|v: &u32| v % 2 == 1);
    assert!(pool.is_valid_handle(a));
    assert!(!pool.is_valid_handle(b));
    assert!(pool.is_valid_handle(c));
    assert_eq!(*pool.borrow(a), 1);
    assert_eq!(*pool.borrow(c), 3);
    let live = pool.live_handles();
    assert_eq!(live.len(), 2);
    assert_eq!(live[0], a);
    assert_eq!(live[1], c);
}

#[test]
fn live_handles_walks_occupied_slots_in_order() {
    let mut pool: Pool<u32> = Pool::new();
    let a = pool.spawn(1);
    let b = pool.spawn(2);
    let c = pool.spawn(3);
    pool.free(b);
    let live = pool.live_handles();
    assert_eq!(live.len(), 2);
    assert_eq!(live[0], a);
    assert_eq!(live[1], c);
    assert_eq!(pool.total_slot_count(), 3);
}
