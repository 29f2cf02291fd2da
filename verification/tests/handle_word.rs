use impatience::arc_handle::raw_arc_handle_count;
use impatience::arc_handle::raw_arc_handle_dec_count;
use impatience::arc_handle::raw_arc_handle_from_ptr;
use impatience::arc_handle::raw_arc_handle_inc_count;
use impatience::arc_handle::raw_arc_handle_ptr;
use impatience::heap::Heap;
use impatience::Arc;
use impatience::ArcHandle;
use impatience::AtomicHandle;
use impatience::Handle;

#[test]
fn word_packing() {
    let w = raw_arc_handle_from_ptr(256);
    assert_eq!(w, 256);
    assert_eq!(raw_arc_handle_count(w), 0);
    assert_eq!(raw_arc_handle_ptr(w), 256);

    let w1 = raw_arc_handle_inc_count(w);
    assert_eq!(w1, 257);
    assert_eq!(raw_arc_handle_ptr(w1), 256);
    assert_eq!(raw_arc_handle_count(w1), 1);

    let w0 = raw_arc_handle_dec_count(w1);
    assert_eq!(w0, w);
}

#[test]
fn word_count_saturates_at_field_width() {
    let mut w = raw_arc_handle_from_ptr(1024);
    for i in 1..=127usize {
        w = raw_arc_handle_inc_count(w);
        assert_eq!(raw_arc_handle_count(w), i);
        assert_eq!(raw_arc_handle_ptr(w), 1024);
    }
}

#[test]
fn reader_survives_swap() {
    let mut heap: Heap<u32> = Heap::new();
    let mut handle = ArcHandle::new(&mut heap, 5);

    // A reader checks in, a writer swaps a new value in and tears the old
    // word down; the reader's block must survive until the reader checks
    // out, and be freed exactly then.
    let ticket = handle.check_in();
    let old_ptr = raw_arc_handle_ptr(ticket);
    let mut temp = ArcHandle::new(&mut heap, 7);
    handle.swap(&mut temp);
    temp.release(&mut heap);
    assert_eq!(heap.live_count(), 2);

    let data = Arc::<u32>::data_from_raw(&heap, old_ptr);
    assert_eq!(data, 5);
    handle.check_out(ticket, &mut heap);
    assert_eq!(heap.live_count(), 1);

    assert_eq!(handle.get(&mut heap), 7);
    handle.release(&mut heap);
    assert_eq!(heap.live_count(), 0);
}

#[test]
fn handle_index_and_count() {
    let h = Handle::<u32>::new(3, 9);
    assert_eq!(h.count(), 9);
    assert_eq!(h.index(), 3);
    let copy = h;
    assert_eq!(copy.count(), 9);
    let _atomic = AtomicHandle::new(h);

    let zero = Handle::<u32>::new(0, 0);
    assert_eq!(zero.count(), 0);
    assert_eq!(zero.index(), 0);

    let top = Handle::<u32>::new(0x7FFFFF, 0x1FF);
    assert_eq!(top.count(), 0x1FF);
    assert_eq!(top.index(), 0x7FFFFF);
}
