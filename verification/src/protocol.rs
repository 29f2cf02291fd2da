use vstd::prelude::*;

verus! {

use crate::arc_handle::word_count;
use crate::arc_handle::word_ptr;
use vstd::arithmetic::div_mod::lemma_fundamental_div_mod;
use vstd::arithmetic::div_mod::lemma_fundamental_div_mod_converse;
use vstd::arithmetic::div_mod::lemma_mod_bound;

// The swap/get protocol, stated as a transition system over the shared state
// one cell touches: the packed word and the blocks, at their atomic
// granularity. Each step below is one atomic operation of the executable
// code — `ArcHandle::check_in`, the two arms of `ArcHandle::check_out`, and
// the allocate, swap, materialize and release steps inside `AtomicCell::set`
// and the handle teardown. Any number of readers and writers may be in
// flight at once, so any interleaving of their operations is a path of this
// system; the lemmas prove that every such path preserves the conservation
// invariant, frees a block only once nothing references it, and never takes
// a checked-in reader's block away.

/// Where a block stands in its life under the protocol.
pub enum Phase {
    /// Allocated by a writer but not yet installed: owned by the writer's
    /// temporary handle alone.
    Fresh,
    /// Named by the cell's word: owned by the live handle's implicit unit
    /// and by the readers embedded in the word.
    Current,
    /// Swapped out while `embedded` readers were registered in the word; the
    /// swapper has not yet materialized them into the counter.
    Detached { embedded: int },
    /// The swapper has added `embedded + 1` to the counter — the readers'
    /// shares and its own unit — but has not yet released that unit.
    Materialized,
    /// The swapper is gone; only still-checked-in readers keep the block
    /// alive.
    Drained,
}

/// One block: its materialized counter, the number of readers checked in on
/// it and not yet out, its phase, and the serial number of the install that
/// made it current — zero while it is still fresh.
pub struct BlockState {
    pub counter: int,
    pub readers: nat,
    pub phase: Phase,
    pub stamp: nat,
}

/// The shared state: the packed word, the allocated blocks by address, and
/// how many installs have committed so far.
pub struct ProtocolState {
    pub word: int,
    pub installs: nat,
    pub blocks: Map<int, BlockState>,
}

/// The address the word currently names.
pub open spec fn cur(s: ProtocolState) -> int {
    word_ptr(s.word)
}

/// Count conservation for one block (the heart of the invariant): in every
/// phase, the materialized counter plus the units still embedded in the word
/// or held by the swapper equals the number of logical owners.
pub open spec fn block_inv(a: int, b: BlockState, s: ProtocolState) -> bool {
    &&& a % 128 == 0
    &&& 0 <= a
    &&& match b.phase {
        Phase::Fresh => a != cur(s) && b.counter == 0 && b.readers == 0,
        Phase::Current => a == cur(s) && b.counter == 0 && b.readers == word_count(s.word)
            && b.stamp == s.installs,
        Phase::Detached { embedded } => a != cur(s) && b.readers <= embedded <= 127
            && b.counter == b.readers - embedded,
        Phase::Materialized => a != cur(s) && b.counter == b.readers + 1,
        Phase::Drained => a != cur(s) && b.counter == b.readers && b.readers >= 1,
    }
}

/// The protocol invariant: the word is a well-formed packed word naming a
/// live current block, and every allocated block conserves its count.
pub open spec fn inv(s: ProtocolState) -> bool {
    &&& 0 <= s.word
    &&& s.blocks.contains_key(cur(s))
    &&& s.blocks[cur(s)].phase is Current
    &&& forall|a: int| #[trigger] s.blocks.contains_key(a) ==> block_inv(a, s.blocks[a], s)
}

/// The atomic steps. Readers perform `CheckIn`, then either `CheckOutSame`
/// (the word still names their block) or `CheckOutGone` (it was swapped out
/// meanwhile). A writer performs `Alloc`, `Install` (the swap itself), then
/// `Materialize` and `Discharge` (the teardown's two counter operations).
pub enum Step {
    CheckIn,
    CheckOutSame,
    CheckOutGone { addr: int },
    Alloc { addr: int },
    Install { addr: int },
    Materialize { addr: int },
    Discharge { addr: int },
}

/// When a step's compare-and-swap or fetch-and-add can commit.
pub open spec fn enabled(s: ProtocolState, step: Step) -> bool {
    match step {
        Step::CheckIn => word_count(s.word) < 127,
        Step::CheckOutSame => word_count(s.word) >= 1,
        Step::CheckOutGone { addr } => addr != cur(s) && s.blocks.contains_key(addr)
            && s.blocks[addr].readers >= 1,
        Step::Alloc { addr } => addr % 128 == 0 && 0 <= addr && !s.blocks.contains_key(addr),
        Step::Install { addr } => s.blocks.contains_key(addr) && s.blocks[addr].phase is Fresh,
        Step::Materialize { addr } => s.blocks.contains_key(addr) && s.blocks[addr].phase
            is Detached,
        Step::Discharge { addr } => s.blocks.contains_key(addr) && s.blocks[addr].phase
            is Materialized,
    }
}

/// The state a committed step leads to.
pub open spec fn step_to(s: ProtocolState, step: Step) -> ProtocolState {
    match step {
        Step::CheckIn => {
            let b = s.blocks[cur(s)];
            ProtocolState {
                word: s.word + 1,
                installs: s.installs,
                blocks: s.blocks.insert(
                    cur(s),
                    BlockState {
                        counter: b.counter,
                        readers: b.readers + 1,
                        phase: b.phase,
                        stamp: b.stamp,
                    },
                ),
            }
        },
        Step::CheckOutSame => {
            let b = s.blocks[cur(s)];
            ProtocolState {
                word: s.word - 1,
                installs: s.installs,
                blocks: s.blocks.insert(
                    cur(s),
                    BlockState {
                        counter: b.counter,
                        readers: (b.readers - 1) as nat,
                        phase: b.phase,
                        stamp: b.stamp,
                    },
                ),
            }
        },
        Step::CheckOutGone { addr } => {
            let b = s.blocks[addr];
            if b.counter == 1 {
                ProtocolState { word: s.word, installs: s.installs, blocks: s.blocks.remove(addr) }
            } else {
                ProtocolState {
                    word: s.word,
                    installs: s.installs,
                    blocks: s.blocks.insert(
                        addr,
                        BlockState {
                            counter: b.counter - 1,
                            readers: (b.readers - 1) as nat,
                            phase: b.phase,
                            stamp: b.stamp,
                        },
                    ),
                }
            }
        },
        Step::Alloc { addr } => ProtocolState {
            word: s.word,
            installs: s.installs,
            blocks: s.blocks.insert(
                addr,
                BlockState { counter: 0, readers: 0, phase: Phase::Fresh, stamp: 0 },
            ),
        },
        Step::Install { addr } => {
            let c = s.blocks[cur(s)];
            let f = s.blocks[addr];
            ProtocolState {
                word: addr,
                installs: s.installs + 1,
                blocks: s.blocks.insert(
                    cur(s),
                    BlockState {
                        counter: c.counter,
                        readers: c.readers,
                        phase: Phase::Detached { embedded: word_count(s.word) },
                        stamp: c.stamp,
                    },
                ).insert(
                    addr,
                    BlockState {
                        counter: f.counter,
                        readers: f.readers,
                        phase: Phase::Current,
                        stamp: s.installs + 1,
                    },
                ),
            }
        },
        Step::Materialize { addr } => {
            let b = s.blocks[addr];
            let embedded = match b.phase {
                Phase::Detached { embedded } => embedded,
                _ => 0,
            };
            ProtocolState {
                word: s.word,
                installs: s.installs,
                blocks: s.blocks.insert(
                    addr,
                    BlockState {
                        counter: b.counter + embedded + 1,
                        readers: b.readers,
                        phase: Phase::Materialized,
                        stamp: b.stamp,
                    },
                ),
            }
        },
        Step::Discharge { addr } => {
            let b = s.blocks[addr];
            if b.counter == 1 {
                ProtocolState { word: s.word, installs: s.installs, blocks: s.blocks.remove(addr) }
            } else {
                ProtocolState {
                    word: s.word,
                    installs: s.installs,
                    blocks: s.blocks.insert(
                        addr,
                        BlockState {
                            counter: b.counter - 1,
                            readers: b.readers,
                            phase: Phase::Drained,
                            stamp: b.stamp,
                        },
                    ),
                }
            }
        },
    }
}

/// One atomic step of one thread.
pub open spec fn next(pre: ProtocolState, post: ProtocolState, step: Step) -> bool {
    enabled(pre, step) && post == step_to(pre, step)
}

proof fn lemma_word_inc(w: int)
    requires
        0 <= w,
        word_count(w) < 127,
    ensures
        word_ptr(w + 1) == word_ptr(w),
        word_count(w + 1) == word_count(w) + 1,
{
    lemma_fundamental_div_mod(w, 128);
    lemma_fundamental_div_mod_converse(w + 1, 128, w / 128, w % 128 + 1);
}

proof fn lemma_word_dec(w: int)
    requires
        0 <= w,
        word_count(w) >= 1,
    ensures
        word_ptr(w - 1) == word_ptr(w),
        word_count(w - 1) == word_count(w) - 1,
{
    lemma_fundamental_div_mod(w, 128);
    lemma_fundamental_div_mod_converse(w - 1, 128, w / 128, w % 128 - 1);
}

/// Count conservation under every interleaving: each atomic step of any
/// reader or writer, taken in any state the protocol can reach, preserves
/// the invariant — in particular the per-block conservation equation of
/// `block_inv`.
pub proof fn lemma_step_preserves_inv(pre: ProtocolState, post: ProtocolState, step: Step)
    requires
        inv(pre),
        next(pre, post, step),
    ensures
        inv(post),
{
    lemma_mod_bound(pre.word, 128);
    match step {
        Step::CheckIn => {
            lemma_word_inc(pre.word);
            assert forall|a: int| #[trigger] post.blocks.contains_key(a) implies block_inv(
                a,
                post.blocks[a],
                post,
            ) by {
                if a != cur(pre) {
                    assert(block_inv(a, pre.blocks[a], pre));
                }
            }
        },
        Step::CheckOutSame => {
            lemma_word_dec(pre.word);
            assert forall|a: int| #[trigger] post.blocks.contains_key(a) implies block_inv(
                a,
                post.blocks[a],
                post,
            ) by {
                if a != cur(pre) {
                    assert(block_inv(a, pre.blocks[a], pre));
                }
            }
        },
        Step::CheckOutGone { addr } => {
            assert(block_inv(addr, pre.blocks[addr], pre));
            assert forall|a: int| #[trigger] post.blocks.contains_key(a) implies block_inv(
                a,
                post.blocks[a],
                post,
            ) by {
                if a != addr {
                    assert(block_inv(a, pre.blocks[a], pre));
                }
            }
        },
        Step::Alloc { addr } => {
            assert forall|a: int| #[trigger] post.blocks.contains_key(a) implies block_inv(
                a,
                post.blocks[a],
                post,
            ) by {
                if a != addr {
                    assert(block_inv(a, pre.blocks[a], pre));
                }
            }
        },
        Step::Install { addr } => {
            assert(block_inv(addr, pre.blocks[addr], pre));
            assert(word_count(addr) == 0);
            assert(cur(post) == addr);
            assert forall|a: int| #[trigger] post.blocks.contains_key(a) implies block_inv(
                a,
                post.blocks[a],
                post,
            ) by {
                if a != addr && a != cur(pre) {
                    assert(block_inv(a, pre.blocks[a], pre));
                }
            }
        },
        Step::Materialize { addr } => {
            assert(block_inv(addr, pre.blocks[addr], pre));
            assert forall|a: int| #[trigger] post.blocks.contains_key(a) implies block_inv(
                a,
                post.blocks[a],
                post,
            ) by {
                if a != addr {
                    assert(block_inv(a, pre.blocks[a], pre));
                }
            }
        },
        Step::Discharge { addr } => {
            assert(block_inv(addr, pre.blocks[addr], pre));
            assert forall|a: int| #[trigger] post.blocks.contains_key(a) implies block_inv(
                a,
                post.blocks[a],
                post,
            ) by {
                if a != addr {
                    assert(block_inv(a, pre.blocks[a], pre));
                }
            }
        },
    }
}

/// No double free, no premature free: when a step frees a block, that block
/// was not the word's target, its counter was exactly one, and the step was
/// either the last checked-in reader's own check-out or the swapper's final
/// release with no reader left. Nothing referenced the block afterwards —
/// and the address leaves the map, so no later step can free it again.
pub proof fn lemma_free_only_unreferenced(
    pre: ProtocolState,
    post: ProtocolState,
    step: Step,
    a: int,
)
    requires
        inv(pre),
        next(pre, post, step),
        pre.blocks.contains_key(a),
        !post.blocks.contains_key(a),
    ensures
        a != cur(pre),
        a != cur(post),
        pre.blocks[a].counter == 1,
        step matches Step::CheckOutGone { addr } ==> addr == a && pre.blocks[a].readers == 1,
        step matches Step::Discharge { addr } ==> addr == a && pre.blocks[a].readers == 0,
        (step matches Step::CheckOutGone { addr: _ }) || (step matches Step::Discharge {
            addr: _,
        }),
{
    lemma_mod_bound(pre.word, 128);
    assert(block_inv(a, pre.blocks[a], pre));
    match step {
        Step::CheckIn => {
            lemma_word_inc(pre.word);
        },
        Step::CheckOutSame => {
            lemma_word_dec(pre.word);
        },
        Step::CheckOutGone { addr } => {
            assert(block_inv(addr, pre.blocks[addr], pre));
        },
        Step::Discharge { addr } => {
            assert(block_inv(addr, pre.blocks[addr], pre));
        },
        _ => {
        },
    }
}

/// No use-after-free for readers: a block with a reader still checked in
/// survives every step but that last reader's own check-out. Between
/// check-in and check-out a reader's block therefore remains allocated, so
/// the copy it takes never touches freed memory.
pub proof fn lemma_reader_keeps_block(
    pre: ProtocolState,
    post: ProtocolState,
    step: Step,
    a: int,
)
    requires
        inv(pre),
        next(pre, post, step),
        pre.blocks.contains_key(a),
        pre.blocks[a].readers >= 1,
    ensures
        post.blocks.contains_key(a) || (step matches Step::CheckOutGone { addr } && addr == a
            && pre.blocks[a].readers == 1),
{
    lemma_mod_bound(pre.word, 128);
    assert(block_inv(a, pre.blocks[a], pre));
    match step {
        Step::CheckIn => {
            lemma_word_inc(pre.word);
        },
        Step::CheckOutSame => {
            lemma_word_dec(pre.word);
        },
        Step::CheckOutGone { addr } => {
            assert(block_inv(addr, pre.blocks[addr], pre));
        },
        Step::Discharge { addr } => {
            assert(block_inv(addr, pre.blocks[addr], pre));
        },
        _ => {
        },
    }
}

/// Non-blocking, writer side: a writer mid-protocol is never blocked by
/// readers. Whatever step of `Alloc`, `Install`, `Materialize`, `Discharge`
/// comes next for it, that step is enabled in every reachable state — its
/// guard never mentions the readers in flight, so a concurrent `get` cannot
/// prevent a `set` from completing.
pub proof fn lemma_writer_never_blocked(s: ProtocolState, a: int)
    requires
        inv(s),
        s.blocks.contains_key(a),
    ensures
        s.blocks[a].phase is Fresh ==> enabled(s, Step::Install { addr: a }),
        s.blocks[a].phase is Detached ==> enabled(s, Step::Materialize { addr: a }),
        s.blocks[a].phase is Materialized ==> enabled(s, Step::Discharge { addr: a }),
{
}

/// Non-blocking, reader side: a checked-in reader can always check out at
/// once, whether or not a writer swapped the word meanwhile — a concurrent
/// `set` cannot prevent a `get` from completing. (Check-in itself needs only
/// room in the seven-bit count field, the stated capacity limit.)
pub proof fn lemma_reader_can_always_check_out(s: ProtocolState, a: int)
    requires
        inv(s),
        s.blocks.contains_key(a),
        s.blocks[a].readers >= 1,
    ensures
        a == cur(s) ==> enabled(s, Step::CheckOutSame),
        a != cur(s) ==> enabled(s, Step::CheckOutGone { addr: a }),
{
    assert(block_inv(a, s.blocks[a], s));
}

/// Installed values are never superseded backwards: no step lowers the
/// install serial, so what one `set` made current can only give way to a
/// later `set`.
pub proof fn lemma_installs_monotone(pre: ProtocolState, post: ProtocolState, step: Step)
    requires
        next(pre, post, step),
    ensures
        pre.installs <= post.installs,
{
}

/// Freshness: the word always names the block of the latest install, so a
/// reader that checks in after some install has committed copies that
/// install's value or a later one, never an earlier one.
pub proof fn lemma_reader_sees_latest(s: ProtocolState)
    requires
        inv(s),
    ensures
        s.blocks[cur(s)].stamp == s.installs,
{
    assert(block_inv(cur(s), s.blocks[cur(s)], s));
}

} // verus!
