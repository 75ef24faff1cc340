//! The allocator front-end state: live heaps, live blocks with their
//! ownership tags and contents, the thread's default heap, the options
//! registry and the diagnostic state — all carried in one explicitly
//! passed [`MiMalloc`] context value.

use vstd::prelude::*;

verus! {

use crate::align::{is_pow2, NATURAL_ALIGNMENT};
use crate::diag::Diagnostics;
use crate::options::OptionsRegistry;

/// A live allocation. A block is owned by exactly one heap; ownership
/// changes only when its heap is deleted (the block migrates to the
/// backing heap) or destroyed (the block disappears).
pub struct Block {
    /// Address of the block; addresses identify blocks and are never
    /// reused while the model lives.
    pub addr: usize,
    /// Identity of the owning heap.
    pub heap: usize,
    /// Size requested at the last allocation or resize.
    pub size: usize,
    /// Capacity actually backing the block; at least `size`.
    pub usable: usize,
    /// Alignment the block was carved at. Resizes re-apply it, so it
    /// never changes over the block's life.
    pub align: usize,
    /// Offset at which `align` holds (zero unless the block came from an
    /// offset-aligned request).
    pub offset: usize,
    /// The block's bytes, one per usable byte.
    pub data: Vec<u8>,
}

impl Block {
    /// Internal consistency of one block record.
    pub open spec fn wf(self) -> bool {
        &&& self.addr >= 1
        &&& self.heap >= 1
        &&& is_pow2(self.align as int)
        &&& self.size <= self.usable
        &&& 1 <= self.usable
        &&& self.data@.len() == self.usable
        &&& (self.addr + self.offset) % (self.align as int) == 0
        &&& self.offset == 0 || self.offset < self.size
    }
}

/// No two live blocks share an address.
pub open spec fn blocks_distinct(s: Seq<Block>) -> bool {
    forall|i: int, j: int| 0 <= i < j < s.len() ==> s[i].addr != s[j].addr
}

/// The allocator front end: the full model state, passed explicitly where
/// a process would keep it as ambient global state.
pub struct MiMalloc {
    /// Identities of the live heaps, the backing heap included.
    pub heaps: Vec<usize>,
    /// The backing heap: always present, never deletable or destroyable.
    pub backing: usize,
    /// The heap ambient allocation calls target; initially the backing
    /// heap.
    pub default_heap: usize,
    /// Next heap identity to hand out; identities are never reused.
    pub next_heap_id: usize,
    /// All live blocks.
    pub blocks: Vec<Block>,
    /// Lowest address the engine has not carved blocks from yet.
    pub next_addr: usize,
    /// The process-wide options registry.
    pub options: OptionsRegistry,
    /// The process-wide diagnostic state.
    pub diag: Diagnostics,
}

impl MiMalloc {
    /// Whether `h` is a live heap.
    pub open spec fn is_heap(self, h: usize) -> bool {
        self.heaps@.contains(h)
    }

    /// Whether `p` is the address of a live block.
    pub open spec fn is_block(self, p: usize) -> bool {
        exists|i: int| 0 <= i < self.blocks@.len() && self.blocks@[i].addr == p
    }

    /// Index of the live block at address `p`.
    pub open spec fn block_index(self, p: usize) -> int {
        choose|i: int| 0 <= i < self.blocks@.len() && self.blocks@[i].addr == p
    }

    /// The live block at address `p`.
    pub open spec fn block(self, p: usize) -> Block {
        self.blocks@[self.block_index(p)]
    }

    /// Whether the live block at `p` is owned by heap `h`.
    pub open spec fn owned_by(self, p: usize, h: usize) -> bool {
        self.is_block(p) && self.block(p).heap == h
    }

    /// Well-formedness of the whole state.
    pub open spec fn wf(self) -> bool {
        &&& 1 <= self.backing
        &&& self.is_heap(self.backing)
        &&& self.is_heap(self.default_heap)
        &&& forall|i: int|
            0 <= i < self.heaps@.len() ==> 1 <= #[trigger] self.heaps@[i] < self.next_heap_id
        &&& forall|i: int, j: int|
            0 <= i < j < self.heaps@.len() ==> self.heaps@[i] != self.heaps@[j]
        &&& blocks_distinct(self.blocks@)
        &&& forall|i: int|
            0 <= i < self.blocks@.len() ==> (#[trigger] self.blocks@[i]).wf()
        &&& forall|i: int|
            0 <= i < self.blocks@.len() ==> self.is_heap(#[trigger] self.blocks@[i].heap)
        &&& forall|i: int|
            0 <= i < self.blocks@.len() ==> #[trigger] self.blocks@[i].addr < self.next_addr
        &&& NATURAL_ALIGNMENT <= self.next_addr
        &&& self.options.wf()
        &&& self.diag.wf()
    }

    /// A fresh front end: only the backing heap exists, it is the
    /// default, and nothing has been allocated, configured or registered.
    pub fn new() -> (r: MiMalloc)
        ensures
            r.wf(),
            r.backing == 1usize,
            r.default_heap == r.backing,
            r.heaps@ == seq![1usize],
            r.blocks@.len() == 0,
            forall|p: usize| !r.is_block(p),
            r.options@ == Map::<usize, i64>::empty(),
            r.diag.output is None,
            r.diag.error is None,
            r.diag.deferred is None,
            r.diag.deferred_since == 0,
            r.diag.deferred_events@.len() == 0,
            r.diag.error_events@.len() == 0,
            r.diag.output_events@.len() == 0,
            r.diag.allocation_count == 0,
            r.diag.free_count == 0,
    {
        let mut heaps: Vec<usize> = Vec::new();
        heaps.push(1);
        proof {
            assert(heaps@ =~= seq![1usize]);
        }
        let r = MiMalloc {
            heaps,
            backing: 1,
            default_heap: 1,
            next_heap_id: 2,
            blocks: Vec::new(),
            next_addr: NATURAL_ALIGNMENT,
            options: OptionsRegistry::new(),
            diag: Diagnostics::new(),
        };
        proof {
            assert(r.heaps@[0] == 1usize);
        }
        r
    }
}

/// The heap bookkeeping of two states agrees: same live heaps, same
/// backing heap, same default heap, same identity counter.
pub open spec fn same_heaps(pre: MiMalloc, post: MiMalloc) -> bool {
    &&& post.heaps@ == pre.heaps@
    &&& post.backing == pre.backing
    &&& post.default_heap == pre.default_heap
    &&& post.next_heap_id == pre.next_heap_id
}

/// The options registry of two states agrees.
pub open spec fn same_options(pre: MiMalloc, post: MiMalloc) -> bool {
    post.options.settings@ == pre.options.settings@
}

/// Every block other than the one at `p` exists in the one state exactly
/// when it exists in the other, unchanged.
pub open spec fn blocks_preserved_except(pre: MiMalloc, post: MiMalloc, p: usize) -> bool {
    &&& forall|q: usize| q != p ==> (post.is_block(q) <==> pre.is_block(q))
    &&& forall|q: usize| q != p && pre.is_block(q) ==> post.block(q) == pre.block(q)
}

/// Every block other than the two at `p` and `q` exists in the one state
/// exactly when it exists in the other, unchanged.
pub open spec fn blocks_preserved_except2(pre: MiMalloc, post: MiMalloc, p: usize, q: usize) -> bool {
    &&& forall|x: usize| x != p && x != q ==> (post.is_block(x) <==> pre.is_block(x))
    &&& forall|x: usize| x != p && x != q && pre.is_block(x) ==> post.block(x) == pre.block(x)
}

/// Every block exists in the one state exactly when it exists in the
/// other, unchanged.
pub open spec fn blocks_preserved(pre: MiMalloc, post: MiMalloc) -> bool {
    &&& forall|q: usize| post.is_block(q) <==> pre.is_block(q)
    &&& forall|q: usize| pre.is_block(q) ==> post.block(q) == pre.block(q)
}

/// Two states over the same block list resolve every address to the same
/// block.
pub proof fn lemma_blocks_preserved_same(pre: MiMalloc, post: MiMalloc)
    requires
        post.blocks@ == pre.blocks@,
        blocks_distinct(pre.blocks@),
    ensures
        blocks_preserved(pre, post),
{
    assert forall|q: usize| (post.is_block(q) <==> pre.is_block(q)) by {
        if post.is_block(q) {
            let i = post.block_index(q);
            assert(pre.blocks@[i].addr == q);
        }
        if pre.is_block(q) {
            let i = pre.block_index(q);
            assert(post.blocks@[i].addr == q);
        }
    }
    assert forall|q: usize| pre.is_block(q) implies post.block(q) == pre.block(q) by {
        let i = pre.block_index(q);
        assert(pre.blocks@[i].addr == q);
        lemma_block_lookup(pre, i);
        lemma_block_lookup(post, i);
    }
}

/// The block at a known index is the block its address looks up to:
/// addresses are unique, so index-wise facts transfer to address-wise
/// facts.
pub proof fn lemma_block_lookup(m: MiMalloc, i: int)
    requires
        blocks_distinct(m.blocks@),
        0 <= i < m.blocks@.len(),
    ensures
        m.is_block(m.blocks@[i].addr),
        m.block_index(m.blocks@[i].addr) == i,
        m.block(m.blocks@[i].addr) == m.blocks@[i],
{
    let p = m.blocks@[i].addr;
    assert(m.is_block(p)) by {
        assert(0 <= i < m.blocks@.len() && m.blocks@[i].addr == p);
    }
    let j = m.block_index(p);
    if i != j {
        assert(m.blocks@[i].addr != m.blocks@[j].addr);
    }
}

} // verus!
