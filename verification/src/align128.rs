use vstd::prelude::*;

verus! {

/// Wrapper marking a value that occupies its own 128-byte-aligned unit.
///
/// Alignment exceeds common cache-line sizes, and it is what frees the low
/// seven bits of every block address for the packed handle word: throughout
/// this crate, the address of an aligned block is a multiple of 128, so those
/// bits are always zero while the block is live. Here the wrapper is the
/// marker for that discipline; the address arithmetic itself is stated and
/// proved where the heap hands addresses out.
pub struct Align128<T>(pub T);

impl<T> Align128<T> {
    pub fn deref(&self) -> (r: &T)
        ensures
            r == &self.0,
    {
        &self.0
    }
}

} // verus!
