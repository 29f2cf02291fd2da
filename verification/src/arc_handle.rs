use vstd::prelude::*;

verus! {

use crate::arc::Arc;
use crate::heap::Heap;
use core::marker::PhantomData;
use vstd::arithmetic::div_mod::lemma_fundamental_div_mod;
use vstd::arithmetic::div_mod::lemma_fundamental_div_mod_converse;

// A raw handle packs a block address and an in-flight reader count into one
// machine word, the single-word substitute for a pointer and a counter that
// no hardware compare-and-swap could update together. Every block address is
// a multiple of 128, so the address divided by 128 lives in the high bits and
// the low seven bits carry the reader count, 0 to 127. Loading the word alone
// never permits dereferencing: a reader first folds itself into the count
// (check-in), copies the value, and folds itself back out (check-out); a
// writer that swaps the word out receives the address together with the
// readers registered at that instant, and owes their shares to the detached
// block's counter before that block can ever be freed.

/// The address component of a packed word: the word with its low seven bits,
/// the embedded reader count, cleared.
pub open spec fn word_ptr(w: int) -> int {
    w - w % 128
}

/// The embedded reader count of a packed word: its low seven bits.
pub open spec fn word_count(w: int) -> int {
    w % 128
}

/// Packs a block address into a raw handle word with reader count zero.
pub fn raw_arc_handle_from_ptr(ptr: usize) -> (w: usize)
    requires
        ptr % 128 == 0,
    ensures
        w == ptr,
        word_ptr(w as int) == ptr,
        word_count(w as int) == 0,
{
    ptr
}

/// Recovers the block address from a raw handle word.
pub fn raw_arc_handle_ptr(w: usize) -> (ptr: usize)
    ensures
        ptr == word_ptr(w as int),
        ptr % 128 == 0,
        ptr <= w,
        w < ptr + 128,
{
    proof {
        lemma_fundamental_div_mod(w as int, 128);
        lemma_fundamental_div_mod_converse(
            w as int - (w as int) % 128,
            128,
            w as int / 128,
            0,
        );
    }
    w - w % 128
}

/// Recovers the embedded reader count from a raw handle word.
pub fn raw_arc_handle_count(w: usize) -> (c: usize)
    ensures
        c == word_count(w as int),
        c < 128,
{
    w % 128
}

/// The word after one more reader checks in: same address, count one higher.
pub fn raw_arc_handle_inc_count(w: usize) -> (r: usize)
    requires
        word_count(w as int) < 127,
        w < usize::MAX,
    ensures
        r == w + 1,
        word_ptr(r as int) == word_ptr(w as int),
        word_count(r as int) == word_count(w as int) + 1,
{
    proof {
        lemma_fundamental_div_mod(w as int, 128);
        lemma_fundamental_div_mod_converse(
            w as int + 1,
            128,
            w as int / 128,
            (w as int) % 128 + 1,
        );
    }
    w + 1
}

/// The word after one reader checks out: same address, count one lower.
pub fn raw_arc_handle_dec_count(w: usize) -> (r: usize)
    requires
        word_count(w as int) >= 1,
    ensures
        r == w - 1,
        word_ptr(r as int) == word_ptr(w as int),
        word_count(r as int) == word_count(w as int) - 1,
{
    proof {
        lemma_fundamental_div_mod(w as int, 128);
        lemma_fundamental_div_mod_converse(
            w as int - 1,
            128,
            w as int / 128,
            (w as int) % 128 - 1,
        );
    }
    w - 1
}

/// A swappable owning handle: one packed word, plus implicit ownership of one
/// unit of the block the word names — the handle's own share, never added to
/// the block's counter while the handle is alive.
pub struct ArcHandle<T> {
    handle: usize,
    phantom: PhantomData<T>,
}

impl<T> ArcHandle<T> {
    /// The packed word this handle currently holds.
    pub closed spec fn word(self) -> int {
        self.handle as int
    }

    /// The address of the block the word names.
    pub open spec fn ptr(self) -> int {
        word_ptr(self.word())
    }

    /// The number of readers checked in on the word.
    pub open spec fn rcount(self) -> int {
        word_count(self.word())
    }

    /// The handle's coupling invariant with the heap its blocks live in: the
    /// word names a live block whose counter is still zero — the handle's own
    /// unit and the checked-in readers are embedded in the word, not yet
    /// materialized — and the address leaves room for the seven count bits.
    pub open spec fn inv(self, heap: Heap<T>) -> bool {
        &&& heap.is_live(self.ptr())
        &&& heap.count_of(self.ptr()) == 0
        &&& self.ptr() <= usize::MAX - 127
    }

    /// Creates a fresh block holding `data` and wraps its address with reader
    /// count zero. The block's counter stays zero: the new handle itself is
    /// the one, implicit, ownership unit.
    pub fn new(heap: &mut Heap<T>, data: T) -> (h: ArcHandle<T>)
        requires
            128 * old(heap).size() + 127 <= usize::MAX,
        ensures
            h.inv(*final(heap)),
            h.rcount() == 0,
            !old(heap).is_live(h.ptr()),
            final(heap).data_of(h.ptr()) == data,
            final(heap).count_of(h.ptr()) == 0,
            final(heap).size() == old(heap).size() + 1,
            final(heap).live_blocks() == old(heap).live_blocks() + 1,
            forall|a: int| a != h.ptr() ==> final(heap).is_live(a) == old(heap).is_live(a),
            forall|a: int|
                old(heap).is_live(a) ==> final(heap).count_of(a) == old(heap).count_of(a)
                    && final(heap).data_of(a) == old(heap).data_of(a),
    {
        let ptr = Arc::raw(heap, data);
        let raw_handle = raw_arc_handle_from_ptr(ptr);
        ArcHandle { handle: raw_handle, phantom: PhantomData }
    }

    /// Atomically exchanges the two handles' words: afterwards `self` holds
    /// what `other` held and the other way round. The caller builds `other`
    /// around the new value beforehand; the superseded word ends up in
    /// `other`, whose teardown releases it.
    pub fn swap(&mut self, other: &mut ArcHandle<T>)
        ensures
            final(self).word() == old(other).word(),
            final(other).word() == old(self).word(),
    {
        let raw_handle = self.handle;
        self.handle = other.handle;
        other.handle = raw_handle;
    }

    /// Check-in: registers a reader by incrementing the embedded count, and
    /// returns the word the reader installed — its ticket for check-out.
    ///
    /// Once checked in, the named block cannot be freed before this reader
    /// checks out: a concurrent swap must first fold the ticket's share into
    /// the detached block's counter.
    pub fn check_in(&mut self) -> (ticket: usize)
        requires
            old(self).rcount() < 127,
            old(self).ptr() <= usize::MAX - 127,
        ensures
            ticket == final(self).word(),
            final(self).ptr() == old(self).ptr(),
            final(self).rcount() == old(self).rcount() + 1,
    {
        let raw_handle = self.handle;
        let raw_handle_new = raw_arc_handle_inc_count(raw_handle);
        self.handle = raw_handle_new;
        raw_handle_new
    }

    /// Check-out: hands a reader's share back, given the ticket it took at
    /// check-in. If the word still names the ticket's block, the embedded
    /// count is decremented in place. If the word was swapped out meanwhile,
    /// the share already migrated into the detached block's counter, so one
    /// unit is released directly against the Arc reconstructed from the
    /// ticket's address — freeing that block if this reader was the last
    /// owner.
    pub fn check_out(&mut self, ticket: usize, heap: &mut Heap<T>)
        requires
            word_ptr(ticket as int) == old(self).ptr() ==> old(self).rcount() >= 1,
            word_ptr(ticket as int) != old(self).ptr() ==> old(heap).is_live(word_ptr(ticket as int)) && old(heap).count_of(word_ptr(ticket as int)) >= 1,
        ensures
            word_ptr(ticket as int) == old(self).ptr() ==> final(self).word() == old(self).word() - 1 && final(self).ptr() == old(self).ptr() && final(self).rcount() == old(self).rcount() - 1 && *final(heap) == *old(heap),
            word_ptr(ticket as int) != old(self).ptr() ==> {
                &&& *final(self) == *old(self)
                &&& (old(heap).count_of(word_ptr(ticket as int)) == 1 ==> !final(heap).is_live(word_ptr(ticket as int)) && final(heap).live_blocks() + 1 == old(heap).live_blocks())
                &&& (old(heap).count_of(word_ptr(ticket as int)) != 1 ==> final(heap).is_live(word_ptr(ticket as int)) && final(heap).count_of(word_ptr(ticket as int)) == old(heap).count_of(word_ptr(ticket as int)) - 1 && final(heap).data_of(word_ptr(ticket as int)) == old(heap).data_of(word_ptr(ticket as int)) && final(heap).live_blocks() == old(heap).live_blocks())
                &&& final(heap).size() == old(heap).size()
                &&& forall|a: int| a != word_ptr(ticket as int) ==> final(heap).is_live(a) == old(heap).is_live(a)
                &&& forall|a: int| old(heap).is_live(a) && a != word_ptr(ticket as int) ==> final(heap).count_of(a) == old(heap).count_of(a) && final(heap).data_of(a) == old(heap).data_of(a)
            },
    {
        let raw_arc_ptr = raw_arc_handle_ptr(ticket);
        let current_ptr = raw_arc_handle_ptr(self.handle);
        if current_ptr == raw_arc_ptr {
            // The address is unchanged: give the share back in the word.
            self.handle = raw_arc_handle_dec_count(self.handle);
        } else {
            // The word was swapped out: the embedded share moved with the
            // old block, whose counter now accounts for this reader.
            let arc = Arc::<T>::from_raw(raw_arc_ptr);
            arc.release(heap);
        }
    }

    /// Teardown: reconstructs the Arc from the handle's final word, adds the
    /// embedded reader count plus one — the outstanding readers and the
    /// handle's own implicit unit — to the block's counter, then releases the
    /// handle's unit, freeing the block if nothing else owns it.
    pub fn release(self, heap: &mut Heap<T>)
        requires
            old(heap).is_live(self.ptr()),
            0 <= old(heap).count_of(self.ptr()),
            old(heap).count_of(self.ptr()) + self.rcount() + 1 <= i64::MAX,
        ensures
            old(heap).count_of(self.ptr()) + self.rcount() == 0 ==> !final(heap).is_live(
                self.ptr(),
            ) && final(heap).live_blocks() + 1 == old(heap).live_blocks(),
            old(heap).count_of(self.ptr()) + self.rcount() > 0 ==> final(heap).is_live(self.ptr())
                && final(heap).count_of(self.ptr()) == old(heap).count_of(self.ptr())
                + self.rcount() && final(heap).data_of(self.ptr()) == old(heap).data_of(
                self.ptr(),
            ) && final(heap).live_blocks() == old(heap).live_blocks(),
            final(heap).size() == old(heap).size(),
            forall|a: int| a != self.ptr() ==> final(heap).is_live(a) == old(heap).is_live(a),
            forall|a: int|
                old(heap).is_live(a) && a != self.ptr() ==> final(heap).count_of(a) == old(
                    heap,
                ).count_of(a) && final(heap).data_of(a) == old(heap).data_of(a),
    {
        let raw_handle = self.handle;
        let arc = Arc::<T>::from_raw(raw_arc_handle_ptr(raw_handle));
        // Materializing the readers and the handle's unit before releasing
        // keeps a never-read block from leaking: the counter must reach
        // exactly zero once.
        let count = raw_arc_handle_count(raw_handle) + 1;
        arc.init_count(heap, count as i64);
        let arc = Arc::<T>::from_raw(raw_arc_handle_ptr(raw_handle));
        arc.release(heap);
    }
}

impl<T: Copy> ArcHandle<T> {
    /// Copies the currently installed value out: checks in, copies, checks
    /// out. Only bounded compare-and-swap retries under contention, never a
    /// wait, and no error path.
    pub fn get(&mut self, heap: &mut Heap<T>) -> (data: T)
        requires
            old(self).inv(*old(heap)),
            old(self).rcount() < 127,
        ensures
            final(self).word() == old(self).word(),
            *final(heap) == *old(heap),
            data == old(heap).data_of(old(self).ptr()),
    {
        // Check-in: obtain the word and register this read in its count.
        let raw_handle_new = self.check_in();
        let raw_arc_ptr = raw_arc_handle_ptr(raw_handle_new);
        // The registered share keeps the block live until check-out.
        let data = Arc::<T>::data_from_raw(heap, raw_arc_ptr);
        // Check-out against the word taken at check-in.
        self.check_out(raw_handle_new, heap);
        data
    }
}

// Packed-word constants of the fixed-capacity variant: a 32-bit word whose
// low nine bits count readers — 512 states — and whose high bits index a
// slot.
const MASK_COUNT: u32 = 0x1FF;
const MASK_INDEX: u32 = 0xFFFF_FE00;
const BIT_SHIFT_INDEX: u32 = 9;

/// A plain packed 32-bit handle of the fixed-capacity variant: slot index in
/// the high 23 bits, reader count in the low 9 bits.
#[derive(Clone, Copy)]
pub struct Handle<T> {
    inner: u32,
    phantom: Ghost<PhantomData<T>>,
}

impl<T> Handle<T> {
    /// The raw 32-bit word.
    pub closed spec fn bits(self) -> int {
        self.inner as int
    }

    /// Packs a slot index and a reader count into one word.
    pub fn new(index: u32, count: u32) -> (h: Handle<T>)
        requires
            index < 0x800000,
            count < 0x200,
        ensures
            h.bits() == index * 0x200 + count,
    {
        proof {
            let i = index;
            let c = count;
            assert((i << 9u32) | c == i * 0x200 + c) by (bit_vector)
                requires
                    i < 0x800000u32,
                    c < 0x200u32,
            ;
        }
        Handle { inner: (index << BIT_SHIFT_INDEX) | count, phantom: Ghost(PhantomData) }
    }

    /// The embedded reader count: the word's low nine bits.
    pub fn count(&self) -> (c: u32)
        ensures
            c == self.bits() % 0x200,
    {
        proof {
            let w = self.inner;
            assert(w & 0x1FFu32 == w % 0x200) by (bit_vector);
        }
        self.inner & MASK_COUNT
    }

    /// The embedded slot index: the word's high bits.
    pub fn index(&self) -> (i: u32)
        ensures
            i == self.bits() / 0x200,
    {
        proof {
            let w = self.inner;
            assert((w & 0xFFFF_FE00u32) >> 9u32 == w / 0x200) by (bit_vector);
        }
        (self.inner & MASK_INDEX) >> BIT_SHIFT_INDEX
    }
}

/// The shared cell of the fixed-capacity variant: the packed 32-bit word all
/// roles would contend on.
pub struct AtomicHandle<T> {
    inner: u32,
    phantom: PhantomData<T>,
}

impl<T> AtomicHandle<T> {
    /// The raw 32-bit word.
    pub closed spec fn bits(self) -> int {
        self.inner as int
    }

    /// Wraps an initial handle word.
    pub fn new(handle: Handle<T>) -> (h: AtomicHandle<T>)
        ensures
            h.bits() == handle.bits(),
    {
        AtomicHandle { inner: handle.inner, phantom: PhantomData }
    }
}

} // verus!
