use fat32_scan::allocator::BumpAllocator;

#[test]
fn cursor_stays_in_bounds_and_resets_only_when_drained() {
    let mut a = BumpAllocator::new();
    a.init(1000, 200);
    assert_eq!(a.heap_start, 1000);
    assert_eq!(a.heap_end, 1200);
    assert_eq!(a.next, 1000);
    assert_eq!(a.allocations, 0);

    let first = a.allocate(10, 1).unwrap();
    assert_eq!(first, 1000);
    assert!(a.heap_start <= a.next && a.next <= a.heap_end);
    assert_ne!(a.next, a.heap_start);
    assert_eq!(a.allocations, 1);

    let second = a.allocate(20, 1).unwrap();
    assert_eq!(second, 1010);
    assert_eq!(a.next, 1030);
    assert_eq!(a.allocations, 2);

    // Freeing one of two live allocations reclaims nothing.
    a.free(first, 10);
    assert_eq!(a.allocations, 1);
    assert_eq!(a.next, 1030);
    assert_ne!(a.next, a.heap_start);

    // Draining to zero resets the cursor to the region start in one step.
    a.free(second, 20);
    assert_eq!(a.allocations, 0);
    assert_eq!(a.next, a.heap_start);
}

#[test]
fn allocate_respects_requested_alignment() {
    let mut a = BumpAllocator::new();
    // A deliberately unaligned region start.
    a.init(1001, 400);
    for &align in &[1usize, 2, 4, 8, 16, 64] {
        let addr = a.allocate(3, align).unwrap();
        assert_eq!(addr % align, 0, "alignment {} violated", align);
    }
}

#[test]
fn allocate_skips_padding_then_advances() {
    let mut a = BumpAllocator::new();
    a.init(100, 100);
    let first = a.allocate(1, 1).unwrap();
    assert_eq!(first, 100);
    // The cursor sits at 101; aligning to 8 pads up to 104.
    let second = a.allocate(8, 8).unwrap();
    assert_eq!(second, 104);
    assert_eq!(a.next, 112);
}

#[test]
fn allocate_fails_when_capacity_is_exceeded() {
    let mut a = BumpAllocator::new();
    a.init(100, 50);
    assert_eq!(a.allocate(51, 1), None);
    // Failure changes nothing.
    assert_eq!(a.next, 100);
    assert_eq!(a.allocations, 0);
    // Padding counts against capacity: 47 bytes would fit from 103, but
    // aligning to 8 pads to 104, whose 47-byte end lies past the region end.
    assert_eq!(a.allocate(3, 1), Some(100));
    assert_eq!(a.allocate(47, 8), None);
    assert_eq!(a.allocate(46, 8), Some(104));
}

#[test]
fn allocate_fails_when_address_arithmetic_would_overflow() {
    let mut a = BumpAllocator::new();
    a.init(usize::MAX - 64, 64);
    // The aligned start plus this size exceeds the address space.
    assert_eq!(a.allocate(usize::MAX, 1), None);
    assert_eq!(a.next, usize::MAX - 64);
    // A request that fits still succeeds.
    assert_eq!(a.allocate(64, 1), Some(usize::MAX - 64));
}

#[test]
fn exhaustion_persists_until_full_drain() {
    let mut a = BumpAllocator::new();
    a.init(0, 32);
    let first = a.allocate(24, 1).unwrap();
    let second = a.allocate(8, 1).unwrap();
    assert_eq!(a.allocate(1, 1), None);
    a.free(second, 8);
    // One allocation is still live: nothing was reclaimed.
    assert_eq!(a.allocate(1, 1), None);
    a.free(first, 24);
    // Drained to zero: the whole arena is available again.
    assert_eq!(a.allocate(32, 1), Some(0));
}
