use vstd::prelude::*;

verus! {

use crate::align128::Align128;
use vstd::arithmetic::div_mod::lemma_fundamental_div_mod;
use vstd::arithmetic::div_mod::lemma_fundamental_div_mod_converse;

/// One heap block: a signed reference counter in its own aligned unit, then
/// the stored value. The counter starts at zero and becomes meaningful only
/// once the block's first owner materializes its units into it.
pub struct Block<T> {
    pub count: Align128<i64>,
    pub data: T,
}

/// Model of the 128-byte-aligned general allocator that the reference-counted
/// blocks live in.
///
/// Slot `i` of the vector stands for the block at address `128 * i`, so every
/// address handed out is a multiple of 128 and its low seven bits are zero
/// while the block is live. A freed block leaves `None` behind and its
/// address is never handed out again, which is what makes "freed exactly
/// once" and "never read after free" provable: every reading or counting
/// operation requires `is_live`.
pub struct Heap<T> {
    blocks: Vec<Option<Block<T>>>,
}

/// Number of occupied slots in `s`.
spec fn occupied<T>(s: Seq<Option<Block<T>>>) -> nat
    decreases s.len(),
{
    if s.len() == 0 {
        0
    } else {
        occupied(s.drop_last()) + (if s.last() is Some {
            1nat
        } else {
            0nat
        })
    }
}

proof fn lemma_occupied_push<T>(s: Seq<Option<Block<T>>>, x: Option<Block<T>>)
    ensures
        occupied(s.push(x)) == occupied(s) + (if x is Some {
            1nat
        } else {
            0nat
        }),
{
    assert(s.push(x).drop_last() =~= s);
}

proof fn lemma_occupied_update_none<T>(s: Seq<Option<Block<T>>>, i: int)
    requires
        0 <= i < s.len(),
        s[i] is Some,
    ensures
        occupied(s.update(i, Option::<Block<T>>::None)) + 1 == occupied(s),
    decreases s.len(),
{
    let t = s.update(i, Option::<Block<T>>::None);
    if i == s.len() - 1 {
        assert(t.drop_last() =~= s.drop_last());
    } else {
        assert(t.drop_last() =~= s.drop_last().update(i, Option::<Block<T>>::None));
        lemma_occupied_update_none(s.drop_last(), i);
        assert(t.last() == s.last());
    }
}

proof fn lemma_occupied_update_some<T>(s: Seq<Option<Block<T>>>, i: int, b: Block<T>)
    requires
        0 <= i < s.len(),
        s[i] is Some,
    ensures
        occupied(s.update(i, Some(b))) == occupied(s),
    decreases s.len(),
{
    let t = s.update(i, Some(b));
    if i == s.len() - 1 {
        assert(t.drop_last() =~= s.drop_last());
    } else {
        assert(t.drop_last() =~= s.drop_last().update(i, Some(b)));
        lemma_occupied_update_some(s.drop_last(), i, b);
        assert(t.last() == s.last());
    }
}

proof fn lemma_occupied_take_step<T>(s: Seq<Option<Block<T>>>, i: int)
    requires
        0 <= i < s.len(),
    ensures
        occupied(s.take(i + 1)) == occupied(s.take(i)) + (if s[i] is Some {
            1nat
        } else {
            0nat
        }),
{
    assert(s.take(i + 1).drop_last() =~= s.take(i));
    assert(s.take(i + 1).last() == s[i]);
}

/// Two distinct non-negative multiples of 128 have distinct quotients by 128.
proof fn lemma_div_distinct(a: int, b: int)
    requires
        a % 128 == 0,
        b % 128 == 0,
        0 <= a,
        0 <= b,
        a != b,
    ensures
        a / 128 != b / 128,
{
    lemma_fundamental_div_mod(a, 128);
    lemma_fundamental_div_mod(b, 128);
}

impl<T> Heap<T> {
    /// Number of addresses ever handed out, freed ones included.
    pub closed spec fn size(self) -> nat {
        self.blocks@.len()
    }

    /// Whether `a` is the address of a currently allocated block.
    pub closed spec fn is_live(self, a: int) -> bool {
        &&& a % 128 == 0
        &&& 0 <= a
        &&& a / 128 < self.blocks@.len()
        &&& self.blocks@[a / 128] is Some
    }

    /// The counter of the live block at address `a`.
    pub closed spec fn count_of(self, a: int) -> int {
        self.blocks@[a / 128]->Some_0.count.0 as int
    }

    /// The value stored in the live block at address `a`.
    pub closed spec fn data_of(self, a: int) -> T {
        self.blocks@[a / 128]->Some_0.data
    }

    /// Number of currently live blocks.
    pub closed spec fn live_blocks(self) -> nat {
        occupied(self.blocks@)
    }

    /// A block's counter is one machine word wide.
    pub proof fn lemma_count_in_range(self, a: int)
        ensures
            i64::MIN <= self.count_of(a) <= i64::MAX,
    {
    }

    /// An empty heap: nothing allocated yet.
    pub fn new() -> (h: Heap<T>)
        ensures
            h.size() == 0,
            h.live_blocks() == 0,
            forall|a: int| !h.is_live(a),
    {
        Heap { blocks: Vec::new() }
    }

    /// Allocates a fresh block holding `data`, its counter zero, and returns
    /// its address: always a multiple of 128, and never an address this heap
    /// has handed out before.
    pub fn allocate(&mut self, data: T) -> (addr: usize)
        requires
            128 * old(self).size() + 127 <= usize::MAX,
        ensures
            addr == 128 * old(self).size(),
            addr + 127 <= usize::MAX,
            addr % 128 == 0,
            !old(self).is_live(addr as int),
            final(self).is_live(addr as int),
            final(self).count_of(addr as int) == 0,
            final(self).data_of(addr as int) == data,
            final(self).size() == old(self).size() + 1,
            final(self).live_blocks() == old(self).live_blocks() + 1,
            forall|a: int| a != addr ==> final(self).is_live(a) == old(self).is_live(a),
            forall|a: int|
                old(self).is_live(a) ==> final(self).count_of(a) == old(self).count_of(a)
                    && final(self).data_of(a) == old(self).data_of(a),
    {
        let idx = self.blocks.len();
        let addr = idx * 128;
        self.blocks.push(Some(Block { count: Align128(0), data }));
        proof {
            lemma_fundamental_div_mod_converse(addr as int, 128, idx as int, 0);
            lemma_occupied_push(old(self).blocks@, self.blocks@.last());
            assert(self.blocks@.drop_last() =~= old(self).blocks@);
            assert forall|a: int|
                a % 128 == 0 && 0 <= a && a != addr implies #[trigger] (a / 128) != addr as int
                / 128 by {
                lemma_div_distinct(a, addr as int);
            }
        }
        addr
    }

    /// Adds `n` (possibly negative) to the counter of the live block at
    /// `addr` and returns the counter's previous value, as an atomic
    /// fetch-and-add on the block's counter word does.
    pub fn fetch_add(&mut self, addr: usize, n: i64) -> (prev: i64)
        requires
            old(self).is_live(addr as int),
            i64::MIN <= old(self).count_of(addr as int) + n <= i64::MAX,
        ensures
            prev == old(self).count_of(addr as int),
            final(self).count_of(addr as int) == old(self).count_of(addr as int) + n,
            final(self).data_of(addr as int) == old(self).data_of(addr as int),
            final(self).size() == old(self).size(),
            final(self).live_blocks() == old(self).live_blocks(),
            forall|a: int| final(self).is_live(a) == old(self).is_live(a),
            forall|a: int|
                old(self).is_live(a) && a != addr ==> final(self).count_of(a) == old(
                    self,
                ).count_of(a) && final(self).data_of(a) == old(self).data_of(a),
    {
        let idx = addr / 128;
        let ghost s = self.blocks@;
        let prev: i64;
        match &mut self.blocks[idx] {
            Some(b) => {
                prev = b.count.0;
                b.count.0 = prev + n;
            },
            None => {
                proof {
                    assert(false);
                }
                prev = 0;
            },
        }
        proof {
            lemma_occupied_update_some(s, idx as int, self.blocks@[idx as int]->Some_0);
            assert(self.blocks@ =~= s.update(idx as int, Some(self.blocks@[idx as int]->Some_0)));
            assert forall|a: int|
                a % 128 == 0 && 0 <= a && a != addr implies #[trigger] (a / 128) != addr as int
                / 128 by {
                lemma_div_distinct(a, addr as int);
            }
        }
        prev
    }

    /// Frees the live block at `addr`. Its address is retired for good: no
    /// later allocation returns it, so a block can be freed at most once.
    pub fn free(&mut self, addr: usize)
        requires
            old(self).is_live(addr as int),
        ensures
            !final(self).is_live(addr as int),
            final(self).size() == old(self).size(),
            final(self).live_blocks() + 1 == old(self).live_blocks(),
            forall|a: int| a != addr ==> final(self).is_live(a) == old(self).is_live(a),
            forall|a: int|
                old(self).is_live(a) && a != addr ==> final(self).count_of(a) == old(
                    self,
                ).count_of(a) && final(self).data_of(a) == old(self).data_of(a),
    {
        let idx = addr / 128;
        proof {
            lemma_occupied_update_none(self.blocks@, idx as int);
            assert forall|a: int|
                a % 128 == 0 && 0 <= a && a != addr implies #[trigger] (a / 128) != addr as int
                / 128 by {
                lemma_div_distinct(a, addr as int);
            }
        }
        self.blocks[idx] = None;
    }

    /// Counts the live blocks, as an instrumented allocator would report.
    pub fn live_count(&self) -> (n: usize)
        ensures
            n == self.live_blocks(),
    {
        let mut n: usize = 0;
        let mut i: usize = 0;
        while i < self.blocks.len()
            invariant
                i <= self.blocks@.len(),
                n == occupied(self.blocks@.take(i as int)),
                n <= i,
            decreases self.blocks@.len() - i,
        {
            proof {
                lemma_occupied_take_step(self.blocks@, i as int);
            }
            if self.blocks[i].is_some() {
                n = n + 1;
            }
            i = i + 1;
        }
        proof {
            assert(self.blocks@.take(self.blocks@.len() as int) =~= self.blocks@);
        }
        n
    }
}

impl<T: Copy> Heap<T> {
    /// Copies the stored value out of the live block at `addr`.
    pub fn read(&self, addr: usize) -> (d: T)
        requires
            self.is_live(addr as int),
        ensures
            d == self.data_of(addr as int),
    {
        let idx = addr / 128;
        match &self.blocks[idx] {
            Some(b) => b.data,
            None => {
                proof {
                    assert(false);
                }
                vstd::pervasive::unreached()
            },
        }
    }
}

} // verus!
