use vstd::prelude::*;

verus! {

use crate::heap::Heap;
use core::marker::PhantomData;

/// An owning reference to exactly one live heap block: one ownership unit of
/// that block.
///
/// The raw-address handoff (`raw` / `from_raw`) is the deliberate boundary of
/// this layer: `raw` leaves a block behind whose counter is zero and not yet
/// meaningful, and any number of `Arc`s may be reconstructed from that address
/// as long as the units they stand for are accounted for in the counter —
/// `init_count` must be called exactly once, with the number of starting
/// units. The type is move-only on purpose: a unit can neither be copied nor
/// silently dropped, and `release` is the one way to give it up.
pub struct Arc<T> {
    inner: usize,
    phantom: PhantomData<T>,
}

impl<T> Arc<T> {
    /// The address of the block this reference owns a unit of.
    pub closed spec fn addr(self) -> int {
        self.inner as int
    }

    /// Allocates a 128-byte-aligned block holding `data`, its counter zero —
    /// a placeholder until `init_count` materializes the starting units —
    /// and returns the block's opaque address.
    pub fn raw(heap: &mut Heap<T>, data: T) -> (addr: usize)
        requires
            128 * old(heap).size() + 127 <= usize::MAX,
        ensures
            addr % 128 == 0,
            addr + 127 <= usize::MAX,
            !old(heap).is_live(addr as int),
            final(heap).is_live(addr as int),
            final(heap).count_of(addr as int) == 0,
            final(heap).data_of(addr as int) == data,
            final(heap).size() == old(heap).size() + 1,
            final(heap).live_blocks() == old(heap).live_blocks() + 1,
            forall|a: int| a != addr ==> final(heap).is_live(a) == old(heap).is_live(a),
            forall|a: int|
                old(heap).is_live(a) ==> final(heap).count_of(a) == old(heap).count_of(a)
                    && final(heap).data_of(a) == old(heap).data_of(a),
    {
        heap.allocate(data)
    }

    /// Reconstructs an owning reference from an address previously returned
    /// by `raw`. The caller answers for the unit this reference stands for
    /// being accounted for in the block's counter before the last unit is
    /// released.
    pub fn from_raw(addr: usize) -> (arc: Arc<T>)
        requires
            addr % 128 == 0,
        ensures
            arc.addr() == addr,
    {
        Arc { inner: addr, phantom: PhantomData }
    }

    /// Materializes the block's starting ownership units: adds `count` to the
    /// counter, as the one atomic fetch-and-add that makes the counter valid.
    /// Must be called exactly once per `raw` call, with `count` at least 1.
    pub fn init_count(&self, heap: &mut Heap<T>, count: i64)
        requires
            old(heap).is_live(self.addr()),
            count >= 1,
            old(heap).count_of(self.addr()) + count <= i64::MAX,
        ensures
            final(heap).count_of(self.addr()) == old(heap).count_of(self.addr()) + count,
            final(heap).data_of(self.addr()) == old(heap).data_of(self.addr()),
            final(heap).size() == old(heap).size(),
            final(heap).live_blocks() == old(heap).live_blocks(),
            forall|a: int| final(heap).is_live(a) == old(heap).is_live(a),
            forall|a: int|
                old(heap).is_live(a) && a != self.addr() ==> final(heap).count_of(a) == old(
                    heap,
                ).count_of(a) && final(heap).data_of(a) == old(heap).data_of(a),
    {
        proof {
            heap.lemma_count_in_range(self.inner as int);
        }
        let _ = heap.fetch_add(self.inner, count);
    }

    /// Gives this ownership unit up: decrements the counter by one, and the
    /// caller that observes the decrement produce exactly zero — no other
    /// path can see the counter positive again — frees the block.
    pub fn release(self, heap: &mut Heap<T>)
        requires
            old(heap).is_live(self.addr()),
            old(heap).count_of(self.addr()) > i64::MIN,
        ensures
            old(heap).count_of(self.addr()) == 1 ==> !final(heap).is_live(self.addr())
                && final(heap).live_blocks() + 1 == old(heap).live_blocks(),
            old(heap).count_of(self.addr()) != 1 ==> final(heap).is_live(self.addr())
                && final(heap).count_of(self.addr()) == old(heap).count_of(self.addr()) - 1
                && final(heap).data_of(self.addr()) == old(heap).data_of(self.addr())
                && final(heap).live_blocks() == old(heap).live_blocks(),
            final(heap).size() == old(heap).size(),
            forall|a: int| a != self.addr() ==> final(heap).is_live(a) == old(heap).is_live(a),
            forall|a: int|
                old(heap).is_live(a) && a != self.addr() ==> final(heap).count_of(a) == old(
                    heap,
                ).count_of(a) && final(heap).data_of(a) == old(heap).data_of(a),
    {
        proof {
            heap.lemma_count_in_range(self.inner as int);
        }
        let prev = heap.fetch_add(self.inner, -1);
        if prev == 1 {
            heap.free(self.inner);
        }
    }
}

impl<T: Copy> Arc<T> {
    /// Copies the stored value out of the block at `addr` without touching
    /// the counter; the caller independently guarantees the block is still
    /// live, e.g. by already holding an outstanding unit.
    pub fn data_from_raw(heap: &Heap<T>, addr: usize) -> (data: T)
        requires
            heap.is_live(addr as int),
        ensures
            data == heap.data_of(addr as int),
    {
        heap.read(addr)
    }
}

} // verus!
