use impatience::spsc::v1::Cell;
use impatience::Hole;
use impatience::Layout;
use impatience::Slot;

#[test]
fn slot_constructors() {
    let s: Slot<u32> = Slot::uninit();
    assert!(matches!(s, Slot::Uninit));

    let h = Hole { next: 2, size: 3 };
    let s = Slot::<u32>::hole(h);
    let got = s.as_hole();
    assert_eq!(got.next, 2);
    assert_eq!(got.size, 3);

    let s = Slot::element(41u32);
    assert_eq!(*s.as_element(), 41);
}

#[test]
fn spsc_exchange() {
    let mut cell = Cell::new(5u32);
    let (mut consumer, mut producer) = cell.split();

    // The initial value is fresh for the consumer.
    let (updated, value) = consumer.get(&mut cell);
    assert!(updated);
    assert_eq!(*value, 5);

    // Nothing new: the consumer sees its last value again.
    let (updated, value) = consumer.get(&mut cell);
    assert!(!updated);
    assert_eq!(*value, 5);

    // The producer leaves a new value; the consumer takes it.
    producer.set(&mut cell, 7);
    let (updated, value) = consumer.get(&mut cell);
    assert!(updated);
    assert_eq!(*value, 7);
}

#[test]
fn spsc_overwrite_drops_untaken() {
    let mut cell = Cell::new(1u32);
    let (mut consumer, mut producer) = cell.split();

    // Two sets in a row: the untaken value is superseded.
    producer.set(&mut cell, 2);
    producer.set(&mut cell, 3);
    let (updated, value) = consumer.get(&mut cell);
    assert!(updated);
    assert_eq!(*value, 3);
}

#[test]
fn layout_array_rounds_to_power_of_two() {
    let layout = Layout::<u64>::array(11);
    let size = std::mem::size_of::<Slot<u64>>() * 11;
    assert!(size >= 128);
    assert_eq!(layout.size(), size);
    let align = layout.align();
    assert!(align.is_power_of_two());
    assert!(size <= align && align < 2 * size);

    let exact = Layout::<[u8; 128]>::array(4);
    assert_eq!(exact.size(), std::mem::size_of::<Slot<[u8; 128]>>() * 4);
    assert!(exact.align().is_power_of_two());
}
