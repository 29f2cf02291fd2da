use impatience::AtomicCell;

#[test]
fn scenario_new_set_get() {
    let mut cell = AtomicCell::new(5);
    cell.set(7);
    assert_eq!(cell.get(), 7);
}

#[test]
fn round_trip() {
    assert_eq!(AtomicCell::new(0u64).get(), 0);
    assert_eq!(AtomicCell::new(u64::MAX).get(), u64::MAX);
    assert_eq!(AtomicCell::new(-3i32).get(), -3);
    assert_eq!(AtomicCell::new((1u8, 2u8)).get(), (1, 2));
}

#[test]
fn set_is_seen_by_every_later_get() {
    let mut cell = AtomicCell::new(1u32);
    cell.set(2);
    assert_eq!(cell.get(), 2);
    assert_eq!(cell.get(), 2);
    cell.set(3);
    assert_eq!(cell.get(), 3);
    assert_eq!(cell.get(), 3);
}

#[test]
fn blocks_are_reclaimed() {
    let mut cell = AtomicCell::new(0u64);
    assert_eq!(cell.live_blocks(), 1);
    for i in 1..100u64 {
        cell.set(i);
        // Every superseded block has been freed: only the current one lives.
        assert_eq!(cell.live_blocks(), 1);
    }
    assert_eq!(cell.release(), 0);
}

#[test]
fn interleaved_reader_and_writer() {
    // One reader and one writer taking turns on a shared cell: every value
    // read is the initial value or one some set installed, nothing crashes,
    // and the allocator's live count returns to zero at the end.
    let mut cell = AtomicCell::new(0u64);
    let mut seen_max: u64 = 0;
    for i in 0..10_000u64 {
        let got = cell.get();
        assert!(got == 0 || got <= i);
        assert!(got >= seen_max);
        seen_max = got;
        cell.set(i + 1);
    }
    assert_eq!(cell.get(), 10_000);
    assert_eq!(cell.live_blocks(), 1);
    assert_eq!(cell.release(), 0);
}
