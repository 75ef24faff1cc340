//! Enumerating the areas and live blocks of a heap, in the order the
//! engine would hand them to a visitor callback.

use vstd::prelude::*;

verus! {

use crate::state::{Block, MiMalloc};

/// One step of a heap traversal. Every area is reported once with a null
/// block pointer; when blocks are included, the area's block follows.
#[derive(Clone, Copy, Debug, PartialEq, Eq, Structural)]
pub struct VisitEntry {
    /// The heap being traversed.
    pub heap: usize,
    /// Start address of the area containing the block.
    pub area_start: usize,
    /// Bytes reserved for the area.
    pub area_reserved: usize,
    /// Bytes in use by the allocated block.
    pub area_used: usize,
    /// The block's address, or zero on the area entry itself.
    pub block: usize,
    /// Size in bytes of one block of the area.
    pub block_size: usize,
}

/// The entry announcing a block's area.
pub open spec fn spec_area_entry(b: Block) -> VisitEntry {
    VisitEntry {
        heap: b.heap,
        area_start: b.addr,
        area_reserved: b.usable,
        area_used: b.size,
        block: 0,
        block_size: b.usable,
    }
}

/// The entry for the block itself.
pub open spec fn spec_block_entry(b: Block) -> VisitEntry {
    VisitEntry {
        heap: b.heap,
        area_start: b.addr,
        area_reserved: b.usable,
        area_used: b.size,
        block: b.addr,
        block_size: b.usable,
    }
}

/// The traversal of heap `h` over a block list: every block of the heap
/// contributes its area entry and, if blocks are included, its block
/// entry, in list order.
pub open spec fn spec_visit_seq(s: Seq<Block>, h: usize, include_blocks: bool) -> Seq<
    VisitEntry,
>
    decreases s.len(),
{
    if s.len() == 0 {
        Seq::empty()
    } else {
        let rest = spec_visit_seq(s.drop_last(), h, include_blocks);
        let b = s.last();
        if b.heap == h {
            if include_blocks {
                rest.push(spec_area_entry(b)).push(spec_block_entry(b))
            } else {
                rest.push(spec_area_entry(b))
            }
        } else {
            rest
        }
    }
}

impl MiMalloc {
    /// Enumerate heap `h`: one entry per area (with a null block
    /// pointer) and, when `include_blocks` is set, one entry per live
    /// block after its area. The embedder drives its visitor over the
    /// entries in order and is free to stop early.
    pub fn heap_visit_blocks(&self, h: usize, include_blocks: bool) -> (r: Vec<VisitEntry>)
        requires
            self.wf(),
            self.is_heap(h),
        ensures
            r@ == spec_visit_seq(self.blocks@, h, include_blocks),
    {
        let mut r: Vec<VisitEntry> = Vec::new();
        let mut i: usize = 0;
        while i < self.blocks.len()
            invariant
                i <= self.blocks@.len(),
                r@ == spec_visit_seq(self.blocks@.take(i as int), h, include_blocks),
            decreases self.blocks@.len() - i,
        {
            let b = &self.blocks[i];
            if b.heap == h {
                r.push(
                    VisitEntry {
                        heap: b.heap,
                        area_start: b.addr,
                        area_reserved: b.usable,
                        area_used: b.size,
                        block: 0,
                        block_size: b.usable,
                    },
                );
                if include_blocks {
                    r.push(
                        VisitEntry {
                            heap: b.heap,
                            area_start: b.addr,
                            area_reserved: b.usable,
                            area_used: b.size,
                            block: b.addr,
                            block_size: b.usable,
                        },
                    );
                }
            }
            proof {
                let s = self.blocks@;
                assert(s.take(i as int + 1).drop_last() =~= s.take(i as int));
                assert(s.take(i as int + 1).last() == s[i as int]);
            }
            i = i + 1;
        }
        proof {
            assert(self.blocks@.take(self.blocks@.len() as int) =~= self.blocks@);
        }
        r
    }
}

} // verus!
