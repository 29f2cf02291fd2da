use impatience::heap::Heap;
use impatience::Arc;

#[test]
fn arc() {
    let mut heap: Heap<[u64; 10]> = Heap::new();
    let value: [u64; 10] = [0, 1, 2, 3, 4, 5, 6, 7, 8, 9];
    let raw_arc = Arc::<[u64; 10]>::raw(&mut heap, value);

    // One interleaving of the two participants: the first releases its
    // reconstructed reference before the second has initialized the count,
    // so the counter dips below zero and recovers.
    let arc0 = Arc::<[u64; 10]>::from_raw(raw_arc);
    let arc1 = Arc::<[u64; 10]>::from_raw(raw_arc);
    arc0.release(&mut heap);
    arc1.init_count(&mut heap, 2);
    arc1.release(&mut heap);
}

#[test]
fn arc_init_first_order() {
    let mut heap: Heap<[u64; 10]> = Heap::new();
    let value: [u64; 10] = [0, 1, 2, 3, 4, 5, 6, 7, 8, 9];
    let raw_arc = Arc::<[u64; 10]>::raw(&mut heap, value);
    assert_eq!(heap.live_count(), 1);

    // The other order: the count is initialized before either release.
    let arc0 = Arc::<[u64; 10]>::from_raw(raw_arc);
    let arc1 = Arc::<[u64; 10]>::from_raw(raw_arc);
    arc1.init_count(&mut heap, 2);
    arc1.release(&mut heap);
    assert_eq!(heap.live_count(), 1);
    arc0.release(&mut heap);
    // Freed exactly once, by whichever release saw the counter reach zero.
    assert_eq!(heap.live_count(), 0);
}

#[test]
fn arc_data_from_raw() {
    let mut heap: Heap<u64> = Heap::new();
    let raw_arc = Arc::<u64>::raw(&mut heap, 42);
    assert_eq!(Arc::<u64>::data_from_raw(&heap, raw_arc), 42);
    let arc = Arc::<u64>::from_raw(raw_arc);
    arc.init_count(&mut heap, 1);
    arc.release(&mut heap);
    assert_eq!(heap.live_count(), 0);
}

#[test]
fn heap_addresses_aligned_and_fresh() {
    let mut heap: Heap<u8> = Heap::new();
    let a0 = heap.allocate(1);
    let a1 = heap.allocate(2);
    let a2 = heap.allocate(3);
    assert_eq!(a0 % 128, 0);
    assert_eq!(a1 % 128, 0);
    assert_eq!(a2 % 128, 0);
    assert_ne!(a0, a1);
    assert_ne!(a1, a2);
    heap.free(a1);
    assert_eq!(heap.live_count(), 2);
    // A freed address is never handed out again.
    let a3 = heap.allocate(4);
    assert_ne!(a3, a1);
    assert_eq!(heap.read(a0), 1);
    assert_eq!(heap.read(a3), 4);
}
