//! Laws relating the front end's operations to one another, stated over
//! the same spec functions the operations' contracts use.

use vstd::prelude::*;

verus! {

use crate::align::{is_pow2, lemma_aligned_to_divisor, lemma_natural_alignment_pow2};
use crate::dispatch::AllocRequest;
use crate::front::{spec_alloc_post, spec_effective_align};
use crate::state::{Block, MiMalloc};

/// Round trip: a block handed out for a request aligned at its start has
/// a usable capacity covering the requested size, and its address is
/// divisible by the requested alignment.
pub proof fn lemma_alloc_round_trip(
    pre: MiMalloc,
    post: MiMalloc,
    req: AllocRequest,
    h: usize,
    p: usize,
)
    requires
        spec_alloc_post(pre, post, req, h, p),
        req.offset == 0,
    ensures
        post.block(p).usable >= req.size,
        p as int % (req.align as int) == 0,
{
}

/// Resize preserves alignment: a block allocated for a request aligned
/// at its start keeps an address divisible by the request's alignment
/// across any successful resize, because resizes re-apply the alignment
/// the block was carved at, which the request's alignment divides.
pub proof fn lemma_resize_preserves_request_alignment(
    pre: MiMalloc,
    post: MiMalloc,
    req: AllocRequest,
    h: usize,
    p: usize,
    q: usize,
)
    requires
        req.wf(),
        req.offset == 0,
        spec_alloc_post(pre, post, req, h, p),
        (q + post.block(p).offset) % (post.block(p).align as int) == 0,
    ensures
        q as int % (req.align as int) == 0,
{
    lemma_natural_alignment_pow2();
    lemma_aligned_to_divisor(
        q as int,
        req.align as int,
        spec_effective_align(req) as int,
    );
}

/// Heap isolation: a live block is contained in the heap that owns it
/// and in no other heap.
pub proof fn lemma_heap_isolation(m: MiMalloc, p: usize, h1: usize, h2: usize)
    requires
        m.wf(),
        m.is_block(p),
        m.block(p).heap == h1,
        h2 != h1,
    ensures
        m.owned_by(p, h1),
        !m.owned_by(p, h2),
{
}

/// Heap deletion preserves validity: across the transition
/// [`MiMalloc::heap_delete`] describes, every live block stays live with
/// its address, sizes and contents intact, so it still meets the
/// precondition of [`MiMalloc::free`]; a block the deleted heap owned is
/// now owned by the backing heap.
pub proof fn lemma_delete_preserves_validity(pre: MiMalloc, post: MiMalloc, h: usize, p: usize)
    requires
        pre.is_block(p),
        forall|q: usize| post.is_block(q) <==> pre.is_block(q),
        forall|q: usize|
            pre.is_block(q) ==> post.block(q) == (Block {
                heap: if pre.block(q).heap == h {
                    pre.backing
                } else {
                    pre.block(q).heap
                },
                ..pre.block(q)
            }),
    ensures
        post.is_block(p),
        post.block(p).addr == pre.block(p).addr,
        post.block(p).size == pre.block(p).size,
        post.block(p).usable == pre.block(p).usable,
        post.block(p).data == pre.block(p).data,
        pre.block(p).heap == h ==> post.owned_by(p, pre.backing),
{
}

/// Heap destruction invalidates: across the transition
/// [`MiMalloc::heap_destroy`] describes, no block the destroyed heap
/// owned is live any more, so no operation whose precondition demands a
/// live block accepts its pointer; blocks of other heaps are untouched.
pub proof fn lemma_destroy_invalidates(pre: MiMalloc, post: MiMalloc, h: usize, p: usize)
    requires
        pre.is_block(p),
        pre.block(p).heap == h,
        forall|q: usize|
            post.is_block(q) <==> (pre.is_block(q) && pre.block(q).heap != h),
    ensures
        !post.is_block(p),
{
}

} // verus!
