use vstd::prelude::*;

pub mod align128;
pub mod arc;
pub mod arc_handle;
pub mod heap;
pub mod protocol;
pub mod slots;
pub mod spsc;

pub use crate::align128::Align128;
pub use crate::arc::Arc;
pub use crate::arc_handle::ArcHandle;
pub use crate::arc_handle::AtomicHandle;
pub use crate::arc_handle::Handle;
pub use crate::slots::Hole;
pub use crate::slots::Layout;
pub use crate::slots::Slot;

verus! {

use crate::heap::Heap;

/// A lock-free cell: any thread may install a new value while any number of
/// readers concurrently copy a snapshot, memory being freed exactly once no
/// reader can still observe it.
///
/// The cell is one swappable handle over one aligned heap; the handle's
/// packed word carries the protocol. Between operations the cell's invariant
/// holds: the handle names the one live block, whose counter is zero — the
/// handle's own ownership unit stays implicit — and no reader is in flight.
pub struct AtomicCell<T> {
    heap: Heap<T>,
    handle: ArcHandle<T>,
}

impl<T> AtomicCell<T> {
    /// The value currently installed.
    pub closed spec fn value(self) -> T {
        self.heap.data_of(self.handle.ptr())
    }

    /// Number of blocks this cell ever allocated: one at creation, one per
    /// `set`.
    pub closed spec fn allocations(self) -> nat {
        self.heap.size()
    }

    /// Number of blocks this cell still retains.
    pub closed spec fn live(self) -> nat {
        self.heap.live_blocks()
    }

    /// The cell's invariant between operations: the handle is coupled to the
    /// heap — it names a live block with counter zero and room for the seven
    /// count bits — no reader is checked in, and no superseded block is still
    /// held: exactly one block is live.
    pub closed spec fn inv(self) -> bool {
        &&& self.handle.inv(self.heap)
        &&& self.handle.rcount() == 0
        &&& self.heap.live_blocks() == 1
    }

    /// Count conservation, seen at rest: every ownership unit is accounted
    /// for. The one live block is owned by the handle alone — its implicit
    /// unit — so its materialized counter and its embedded reader count are
    /// both zero, and every block ever superseded has been freed.
    pub proof fn lemma_count_conservation(self)
        requires
            self.inv(),
        ensures
            self.live() == 1,
    {
    }
}

impl<T: Copy> AtomicCell<T> {
    /// Creates a cell holding `value` in a fresh block.
    pub fn new(value: T) -> (cell: AtomicCell<T>)
        ensures
            cell.inv(),
            cell.value() == value,
            cell.allocations() == 1,
    {
        let mut heap = Heap::<T>::new();
        let handle = ArcHandle::<T>::new(&mut heap, value);
        AtomicCell { heap, handle }
    }

    /// Installs `value`: builds a temporary handle around it, swaps it into
    /// the cell's word, and tears the temporary — now holding the superseded
    /// word — down, which releases the old value's unit and frees its block.
    pub fn set(&mut self, value: T)
        requires
            old(self).inv(),
            128 * old(self).allocations() + 127 <= usize::MAX,
        ensures
            final(self).inv(),
            final(self).value() == value,
            final(self).allocations() == old(self).allocations() + 1,
    {
        let mut other = ArcHandle::<T>::new(&mut self.heap, value);
        self.handle.swap(&mut other);
        other.release(&mut self.heap);
    }

    /// Returns a copy of the currently installed value. Never blocks and
    /// never fails; the cell is unchanged.
    pub fn get(&mut self) -> (value: T)
        requires
            old(self).inv(),
        ensures
            final(self).inv(),
            final(self).value() == old(self).value(),
            final(self).allocations() == old(self).allocations(),
            value == old(self).value(),
    {
        self.handle.get(&mut self.heap)
    }

    /// How many blocks the cell still retains, as an instrumented allocator
    /// would report them.
    pub fn live_blocks(&self) -> (n: usize)
        ensures
            n == self.live(),
    {
        self.heap.live_count()
    }

    /// Tears the cell down: the handle's teardown releases its implicit unit
    /// and frees the last block. Returns the number of blocks still live
    /// afterwards: none.
    pub fn release(self) -> (remaining: usize)
        requires
            self.inv(),
        ensures
            remaining == 0,
    {
        let AtomicCell { mut heap, handle } = self;
        handle.release(&mut heap);
        heap.live_count()
    }
}

} // verus!
