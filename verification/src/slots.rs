use vstd::prelude::*;

verus! {

use core::marker::PhantomData;
use vstd::arithmetic::power2::lemma2_to64;
use vstd::arithmetic::power2::lemma_pow2_unfold;
use vstd::arithmetic::power2::pow2;
use vstd::layout::size_of;

/// A link of the fixed-capacity store's free list: the index of the next
/// hole and the number of consecutive free slots this one covers.
#[derive(Clone, Copy)]
pub struct Hole {
    pub next: usize,
    pub size: usize,
}

/// One 128-byte-aligned slot of the fixed-capacity store, the companion of
/// the packed 32-bit `Handle`: either not yet initialized, a hole threaded
/// on the free list, or an element in place.
pub enum Slot<T> {
    Uninit,
    Hole(Hole),
    Element(T),
}

impl<T> Slot<T> {
    /// A slot that holds nothing yet.
    pub fn uninit() -> (s: Slot<T>)
        ensures
            s is Uninit,
    {
        Slot::Uninit
    }

    /// A slot turned into a free-list hole.
    pub fn hole(hole: Hole) -> (s: Slot<T>)
        ensures
            s == Slot::<T>::Hole(hole),
    {
        Slot::Hole(hole)
    }

    /// A slot with an element in place.
    pub fn element(element: T) -> (s: Slot<T>)
        ensures
            s == Slot::Element(element),
    {
        Slot::Element(element)
    }

    /// Reads the slot as a hole; the caller answers for the slot being one.
    pub fn as_hole(&self) -> (h: &Hole)
        requires
            self is Hole,
        ensures
            *self == Slot::<T>::Hole(*h),
    {
        match self {
            Slot::Hole(h) => h,
            _ => {
                proof {
                    assert(false);
                }
                vstd::pervasive::unreached()
            },
        }
    }

    /// Reads the slot as an element; the caller answers for the slot being
    /// one.
    pub fn as_element(&self) -> (e: &T)
        requires
            self is Element,
        ensures
            *self == Slot::Element(*e),
    {
        match self {
            Slot::Element(e) => e,
            _ => {
                proof {
                    assert(false);
                }
                vstd::pervasive::unreached()
            },
        }
    }
}

/// The memory layout of a backing array of slots: its byte size and its
/// alignment, the smallest power of two not below the whole size, so that
/// the array as a region keeps every slot on its aligned unit.
pub struct Layout<T> {
    size: usize,
    align: usize,
    phantom: PhantomData<T>,
}

impl<T> Layout<T> {
    /// The array's size in bytes.
    pub closed spec fn bytes(self) -> int {
        self.size as int
    }

    /// The array's alignment in bytes.
    pub closed spec fn alignment(self) -> int {
        self.align as int
    }

    /// The array's size in bytes.
    pub fn size(&self) -> (s: usize)
        ensures
            s == self.bytes(),
    {
        self.size
    }

    /// The array's alignment in bytes.
    pub fn align(&self) -> (a: usize)
        ensures
            a == self.alignment(),
    {
        self.align
    }

    /// Computes the layout of an array of `n` slots. The array must cover at
    /// least one aligned unit, and must be small enough that rounding its
    /// size up to a power of two stays within the address space.
    pub fn array(n: usize) -> (layout: Layout<T>)
        requires
            128 <= n * size_of::<Slot<T>>(),
            n * size_of::<Slot<T>>() <= usize::MAX / 2,
        ensures
            layout.bytes() == n * size_of::<Slot<T>>(),
            layout.bytes() <= layout.alignment() < 2 * layout.bytes(),
            exists|e: nat| layout.alignment() == pow2(e),
    {
        let size = core::mem::size_of::<Slot<T>>() * n;
        let mut align: usize = 128;
        let ghost mut e: nat = 7nat;
        proof {
            lemma2_to64();
        }
        while align < size
            invariant
                align == pow2(e),
                128 <= align,
                align == 128 || align < 2 * size,
                size <= usize::MAX / 2,
            decreases 2 * size - align,
        {
            proof {
                e = e + 1;
                lemma_pow2_unfold(e);
            }
            align = align * 2;
        }
        proof {
            assert(align == pow2(e));
        }
        Layout { size, align, phantom: PhantomData }
    }
}

} // verus!
