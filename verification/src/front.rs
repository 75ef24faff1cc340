//! The public allocation interface: every request passes through the
//! alignment dispatcher, which validates the platform alignment ceiling,
//! picks the fast or the slow engine path, and hands the carved block
//! back with its alignment guarantee proved.

use vstd::prelude::*;

verus! {

use crate::align::{is_pow2, lemma_aligned_to_divisor, spec_good_size, NATURAL_ALIGNMENT};
use crate::diag::{
    spec_after_allocation, spec_after_failure, spec_after_free, ERR_ENOMEM, ERR_EOVERFLOW,
};
use crate::dispatch::{
    checked_request_size, select_entry_point, spec_fast_path, validate_alignment, AllocError,
    AllocRequest, EntryPoint, ALIGNMENT_CEILING,
};
use crate::state::{
    blocks_distinct, blocks_preserved, blocks_preserved_except, blocks_preserved_except2,
    lemma_block_lookup, lemma_blocks_preserved_same, same_heaps, same_options, Block, MiMalloc,
};

/// The alignment the engine is asked for: on the fast path the engine's
/// natural block alignment already covers the request, on the slow path
/// the request's own alignment is forwarded.
pub open spec fn spec_effective_align(req: AllocRequest) -> usize {
    if spec_fast_path(req.size, req.align, req.offset) {
        NATURAL_ALIGNMENT
    } else {
        req.align
    }
}

/// What a successful allocation dispatch guarantees: a fresh, live block
/// of the requested size in the requested heap, whose address honours the
/// requested alignment at the requested offset, whose usable capacity
/// covers the request, zero-filled if asked — with every other block,
/// every heap and the options registry untouched, and exactly one
/// allocation recorded.
pub open spec fn spec_alloc_post(
    pre: MiMalloc,
    post: MiMalloc,
    req: AllocRequest,
    h: usize,
    p: usize,
) -> bool {
    &&& p != 0
    &&& !pre.is_block(p)
    &&& post.is_block(p)
    &&& post.block(p).heap == h
    &&& post.block(p).size == req.size
    &&& post.block(p).usable == spec_good_size(req.size)
    &&& post.block(p).usable >= req.size
    &&& post.block(p).align == spec_effective_align(req)
    &&& post.block(p).offset == req.offset
    &&& (p + req.offset) % (req.align as int) == 0
    &&& post.block(p).data@.len() == spec_good_size(req.size)
    &&& (req.zero_init ==> post.block(p).data@ == Seq::new(
        spec_good_size(req.size) as nat,
        |i: int| 0u8,
    ))
    &&& blocks_preserved_except(pre, post, p)
    &&& post.blocks@.len() == pre.blocks@.len() + 1
    &&& same_heaps(pre, post)
    &&& same_options(pre, post)
    &&& post.diag@ == spec_after_allocation(pre.diag@)
}

/// What a failed request that reached the engine guarantees: no state
/// changed apart from one failure reported through the error callback.
pub open spec fn spec_alloc_fail_post(pre: MiMalloc, post: MiMalloc, code: i32) -> bool {
    &&& blocks_preserved(pre, post)
    &&& post.blocks@.len() == pre.blocks@.len()
    &&& post.next_addr == pre.next_addr
    &&& same_heaps(pre, post)
    &&& same_options(pre, post)
    &&& post.diag@ == spec_after_failure(pre.diag@, code)
}

/// What a successful in-place resize guarantees: same block, same
/// address, same capacity, same contents — only the requested size moved.
pub open spec fn spec_resize_inplace_post(
    pre: MiMalloc,
    post: MiMalloc,
    ptr: usize,
    new_size: usize,
) -> bool {
    &&& post.is_block(ptr)
    &&& post.block(ptr).addr == pre.block(ptr).addr
    &&& post.block(ptr).heap == pre.block(ptr).heap
    &&& post.block(ptr).size == new_size
    &&& post.block(ptr).usable == pre.block(ptr).usable
    &&& post.block(ptr).align == pre.block(ptr).align
    &&& post.block(ptr).offset == pre.block(ptr).offset
    &&& post.block(ptr).data == pre.block(ptr).data
    &&& blocks_preserved_except(pre, post, ptr)
    &&& post.blocks@.len() == pre.blocks@.len()
    &&& same_heaps(pre, post)
    &&& same_options(pre, post)
    &&& post.diag@ == pre.diag@
    &&& post.next_addr == pre.next_addr
}

/// What a successful moving resize guarantees: a fresh block in heap `h`
/// carrying the old block's alignment and offset, with the old contents
/// copied up to the old requested size, and the old block freed. One
/// allocation and one free are recorded.
pub open spec fn spec_resize_move_post(
    pre: MiMalloc,
    post: MiMalloc,
    ptr: usize,
    new_size: usize,
    h: usize,
    q: usize,
) -> bool {
    &&& q != 0
    &&& q != ptr
    &&& !pre.is_block(q)
    &&& post.is_block(q)
    &&& !post.is_block(ptr)
    &&& post.block(q).heap == h
    &&& post.block(q).size == new_size
    &&& post.block(q).usable == spec_good_size(new_size)
    &&& post.block(q).align == pre.block(ptr).align
    &&& post.block(q).offset == pre.block(ptr).offset
    &&& post.block(q).data@.len() == spec_good_size(new_size)
    &&& post.block(q).data@.subrange(0, pre.block(ptr).size as int) == pre.block(
        ptr,
    ).data@.subrange(0, pre.block(ptr).size as int)
    &&& blocks_preserved_except2(pre, post, ptr, q)
    &&& post.blocks@.len() == pre.blocks@.len()
    &&& same_heaps(pre, post)
    &&& same_options(pre, post)
    &&& post.diag@ == spec_after_free(spec_after_allocation(pre.diag@))
}

impl MiMalloc {
    /// Dispatch an allocation request against heap `h`: reject an
    /// alignment above the platform ceiling without touching the engine,
    /// route the request to the cheapest correct entry point otherwise,
    /// and return the block address or the failure.
    pub fn dispatch_allocate(&mut self, req: AllocRequest, h: usize) -> (r: Result<
        usize,
        AllocError,
    >)
        requires
            old(self).wf(),
            old(self).is_heap(h),
            req.wf(),
        ensures
            final(self).wf(),
            r is Ok <==> (req.align <= ALIGNMENT_CEILING && old(self).spec_fits(
                spec_effective_align(req),
                req.offset,
                req.size,
            )),
            r matches Ok(p) ==> spec_alloc_post(*old(self), *final(self), req, h, p),
            req.align > ALIGNMENT_CEILING ==> r == Err::<usize, AllocError>(
                AllocError::UnsupportedAlignment,
            ) && *final(self) == *old(self),
            r == Err::<usize, AllocError>(AllocError::OutOfMemory) ==> spec_alloc_fail_post(
                *old(self),
                *final(self),
                ERR_ENOMEM,
            ),
            r is Err ==> (r->Err_0 == AllocError::UnsupportedAlignment || r->Err_0
                == AllocError::OutOfMemory),
            req.align <= ALIGNMENT_CEILING && r is Err ==> r->Err_0 == AllocError::OutOfMemory,
    {
        match validate_alignment(req.align) {
            Ok(()) => {},
            Err(e) => {
                return Err(e);
            },
        }
        let entry = select_entry_point(&req);
        let fast = match entry {
            EntryPoint::Plain | EntryPoint::PlainZeroed => true,
            _ => false,
        };
        let eff_align = if fast {
            NATURAL_ALIGNMENT
        } else {
            req.align
        };
        proof {
            crate::align::lemma_natural_alignment_pow2();
        }
        let ghost pre = *self;
        let result = self.carve_block(h, req.size, eff_align, req.offset, req.zero_init);
        match result {
            Ok(p) => {
                let ghost mid = *self;
                self.diag.note_allocation();
                proof {
                    lemma_blocks_preserved_same(mid, *self);
                    if fast {
                        assert(req.offset == 0);
                        lemma_aligned_to_divisor(
                            p as int,
                            req.align as int,
                            NATURAL_ALIGNMENT as int,
                        );
                    }
                    assert(spec_alloc_post(pre, *self, req, h, p)) by {
                        assert(mid.block(p) == self.block(p));
                        assert forall|q: usize| q != p && pre.is_block(q) implies self.block(q)
                            == pre.block(q) by {
                            assert(mid.block(q) == pre.block(q));
                            assert(mid.is_block(q));
                        }
                    }
                }
                Ok(p)
            },
            Err(e) => {
                let ghost mid = *self;
                self.diag.note_failure(ERR_ENOMEM);
                proof {
                    lemma_blocks_preserved_same(mid, *self);
                    assert(blocks_preserved(pre, *self)) by {
                        assert(mid.blocks@ == pre.blocks@);
                        lemma_blocks_preserved_same(pre, mid);
                        assert forall|q: usize| pre.is_block(q) implies self.block(q)
                            == pre.block(q) by {
                            assert(mid.block(q) == pre.block(q));
                            assert(mid.is_block(q));
                        }
                    }
                }
                Err(e)
            },
        }
    }

    /// Allocate `size` bytes aligned to `align` from the ambient default
    /// heap.
    pub fn allocate(&mut self, size: usize, align: usize) -> (r: Result<usize, AllocError>)
        requires
            old(self).wf(),
            is_pow2(align as int),
        ensures
            final(self).wf(),
            r is Ok <==> (align <= ALIGNMENT_CEILING && old(self).spec_fits(
                spec_effective_align(AllocRequest { size, align, zero_init: false, offset: 0 }),
                0,
                size,
            )),
            r matches Ok(p) ==> spec_alloc_post(
                *old(self),
                *final(self),
                AllocRequest { size, align, zero_init: false, offset: 0 },
                old(self).default_heap,
                p,
            ),
            align > ALIGNMENT_CEILING ==> r == Err::<usize, AllocError>(
                AllocError::UnsupportedAlignment,
            ) && *final(self) == *old(self),
            r == Err::<usize, AllocError>(AllocError::OutOfMemory) ==> spec_alloc_fail_post(
                *old(self),
                *final(self),
                ERR_ENOMEM,
            ),
    {
        let h = self.default_heap;
        self.dispatch_allocate(AllocRequest::new(size, align), h)
    }

    /// Allocate `size` zero-initialized bytes aligned to `align` from the
    /// ambient default heap.
    pub fn alloc_zeroed(&mut self, size: usize, align: usize) -> (r: Result<usize, AllocError>)
        requires
            old(self).wf(),
            is_pow2(align as int),
        ensures
            final(self).wf(),
            r is Ok <==> (align <= ALIGNMENT_CEILING && old(self).spec_fits(
                spec_effective_align(AllocRequest { size, align, zero_init: true, offset: 0 }),
                0,
                size,
            )),
            r matches Ok(p) ==> spec_alloc_post(
                *old(self),
                *final(self),
                AllocRequest { size, align, zero_init: true, offset: 0 },
                old(self).default_heap,
                p,
            ),
            align > ALIGNMENT_CEILING ==> r == Err::<usize, AllocError>(
                AllocError::UnsupportedAlignment,
            ) && *final(self) == *old(self),
            r == Err::<usize, AllocError>(AllocError::OutOfMemory) ==> spec_alloc_fail_post(
                *old(self),
                *final(self),
                ERR_ENOMEM,
            ),
    {
        let h = self.default_heap;
        self.dispatch_allocate(AllocRequest::zeroed(size, align), h)
    }

    /// Allocate from an explicitly supplied heap instead of the default.
    pub fn heap_alloc(&mut self, h: usize, size: usize, align: usize) -> (r: Result<
        usize,
        AllocError,
    >)
        requires
            old(self).wf(),
            old(self).is_heap(h),
            is_pow2(align as int),
        ensures
            final(self).wf(),
            r is Ok <==> (align <= ALIGNMENT_CEILING && old(self).spec_fits(
                spec_effective_align(AllocRequest { size, align, zero_init: false, offset: 0 }),
                0,
                size,
            )),
            r matches Ok(p) ==> spec_alloc_post(
                *old(self),
                *final(self),
                AllocRequest { size, align, zero_init: false, offset: 0 },
                h,
                p,
            ),
            align > ALIGNMENT_CEILING ==> r == Err::<usize, AllocError>(
                AllocError::UnsupportedAlignment,
            ) && *final(self) == *old(self),
            r == Err::<usize, AllocError>(AllocError::OutOfMemory) ==> spec_alloc_fail_post(
                *old(self),
                *final(self),
                ERR_ENOMEM,
            ),
    {
        self.dispatch_allocate(AllocRequest::new(size, align), h)
    }

    /// Allocate zero-initialized memory from an explicitly supplied heap.
    pub fn heap_alloc_zeroed(&mut self, h: usize, size: usize, align: usize) -> (r: Result<
        usize,
        AllocError,
    >)
        requires
            old(self).wf(),
            old(self).is_heap(h),
            is_pow2(align as int),
        ensures
            final(self).wf(),
            r is Ok <==> (align <= ALIGNMENT_CEILING && old(self).spec_fits(
                spec_effective_align(AllocRequest { size, align, zero_init: true, offset: 0 }),
                0,
                size,
            )),
            r matches Ok(p) ==> spec_alloc_post(
                *old(self),
                *final(self),
                AllocRequest { size, align, zero_init: true, offset: 0 },
                h,
                p,
            ),
            align > ALIGNMENT_CEILING ==> r == Err::<usize, AllocError>(
                AllocError::UnsupportedAlignment,
            ) && *final(self) == *old(self),
            r == Err::<usize, AllocError>(AllocError::OutOfMemory) ==> spec_alloc_fail_post(
                *old(self),
                *final(self),
                ERR_ENOMEM,
            ),
    {
        self.dispatch_allocate(AllocRequest::zeroed(size, align), h)
    }

    /// Free a block allocated through this front end. Freeing the null
    /// pointer is a no-op.
    pub fn dealloc(&mut self, ptr: usize)
        requires
            old(self).wf(),
            ptr == 0 || old(self).is_block(ptr),
        ensures
            final(self).wf(),
            ptr == 0 ==> *final(self) == *old(self),
            ptr != 0 ==> {
                &&& !final(self).is_block(ptr)
                &&& blocks_preserved_except(*old(self), *final(self), ptr)
                &&& final(self).blocks@.len() == old(self).blocks@.len() - 1
                &&& same_heaps(*old(self), *final(self))
                &&& same_options(*old(self), *final(self))
                &&& final(self).diag@ == spec_after_free(old(self).diag@)
            },
    {
        self.free(ptr)
    }

    /// Resize the block at `ptr` to `new_size` bytes against heap `h`,
    /// re-applying the alignment the block was originally carved at — a
    /// live block's alignment never changes across resizes, and the
    /// engine is never handed an alignment that differs from the original
    /// one. Grows in place while the usable capacity covers the request;
    /// moves the block otherwise, preserving its contents up to the old
    /// requested size. On failure the original block is untouched.
    #[verifier::loop_isolation(false)]
    pub fn dispatch_resize(&mut self, ptr: usize, new_size: usize, h: usize) -> (r: Result<
        usize,
        AllocError,
    >)
        requires
            old(self).wf(),
            old(self).is_heap(h),
            old(self).is_block(ptr),
            old(self).block(ptr).offset == 0 || old(self).block(ptr).offset < new_size,
        ensures
            final(self).wf(),
            r is Ok <==> (new_size <= old(self).block(ptr).usable || old(self).spec_fits(
                old(self).block(ptr).align,
                old(self).block(ptr).offset,
                new_size,
            )),
            new_size <= old(self).block(ptr).usable ==> r == Ok::<usize, AllocError>(ptr)
                && spec_resize_inplace_post(*old(self), *final(self), ptr, new_size),
            new_size > old(self).block(ptr).usable ==> (r matches Ok(q)
                ==> spec_resize_move_post(*old(self), *final(self), ptr, new_size, h, q)),
            r matches Ok(q) ==> {
                &&& final(self).block(q).align == old(self).block(ptr).align
                &&& (q + old(self).block(ptr).offset) % (old(self).block(ptr).align as int) == 0
            },
            r is Err ==> r->Err_0 == AllocError::OutOfMemory && spec_alloc_fail_post(
                *old(self),
                *final(self),
                ERR_ENOMEM,
            ),
    {
        let idx = match self.find_block(ptr) {
            Some(i) => i,
            None => unreached(),
        };
        proof {
            assert(self.blocks@[idx as int].wf());
        }
        let cur_size = self.blocks[idx].size;
        let cur_usable = self.blocks[idx].usable;
        let cur_align = self.blocks[idx].align;
        let cur_offset = self.blocks[idx].offset;
        let ghost pre = *self;
        if new_size <= cur_usable {
            self.blocks[idx].size = new_size;
            proof {
                let post = *self;
                let k = idx as int;
                assert(blocks_distinct(post.blocks@)) by {
                    assert forall|a: int, b: int| 0 <= a < b < post.blocks@.len() implies post
                        .blocks@[a].addr != post.blocks@[b].addr by {
                        assert(pre.blocks@[a].addr != pre.blocks@[b].addr);
                    }
                }
                lemma_block_lookup(post, k);
                assert(post.wf()) by {
                    assert forall|j: int| 0 <= j < post.blocks@.len() implies (
                        #[trigger] post.blocks@[j]).wf() && post.is_heap(post.blocks@[j].heap)
                        && post.blocks@[j].addr < post.next_addr by {
                        assert(pre.blocks@[j].wf());
                        assert(pre.is_heap(pre.blocks@[j].heap));
                    }
                }
                assert forall|x: usize| x != ptr implies (post.is_block(x) <==> pre.is_block(
                    x,
                )) by {
                    if post.is_block(x) {
                        let i2 = post.block_index(x);
                        lemma_block_lookup(pre, i2);
                    }
                    if pre.is_block(x) {
                        let i2 = pre.block_index(x);
                        lemma_block_lookup(post, i2);
                    }
                }
                assert forall|x: usize| x != ptr && pre.is_block(x) implies post.block(x)
                    == pre.block(x) by {
                    let i2 = pre.block_index(x);
                    assert(pre.blocks@[i2].addr == x);
                    lemma_block_lookup(post, i2);
                }
            }
            Ok(ptr)
        } else {
            let carved = self.carve_block(h, new_size, cur_align, cur_offset, false);
            let q = match carved {
                Ok(q) => q,
                Err(e) => {
                    let ghost mid = *self;
                    self.diag.note_failure(ERR_ENOMEM);
                    proof {
                        lemma_blocks_preserved_same(pre, mid);
                        lemma_blocks_preserved_same(mid, *self);
                        assert forall|x: usize| pre.is_block(x) implies self.block(x)
                            == pre.block(x) && self.is_block(x) by {
                            assert(mid.is_block(x) && mid.block(x) == pre.block(x));
                        }
                        assert forall|x: usize| self.is_block(x) implies pre.is_block(x) by {
                            assert(mid.is_block(x));
                        }
                    }
                    return Err(e);
                },
            };
            let ghost mid = *self;
            self.diag.note_allocation();
            proof {
                lemma_blocks_preserved_same(mid, *self);
            }
            let ghost mid2 = *self;
            let mut i: usize = 0;
            while i < cur_size
                invariant
                    i <= cur_size,
                    self.wf(),
                    forall|x: usize| x != q ==> (self.is_block(x) <==> mid2.is_block(x)),
                    forall|x: usize|
                        x != q && mid2.is_block(x) ==> self.block(x) == mid2.block(x),
                    self.is_block(q),
                    self.block(q).addr == mid2.block(q).addr,
                    self.block(q).heap == mid2.block(q).heap,
                    self.block(q).size == mid2.block(q).size,
                    self.block(q).usable == mid2.block(q).usable,
                    self.block(q).align == mid2.block(q).align,
                    self.block(q).offset == mid2.block(q).offset,
                    self.block(q).data@.len() == mid2.block(q).data@.len(),
                    forall|j: int|
                        0 <= j < i ==> self.block(q).data@[j] == pre.block(ptr).data@[j],
                    same_heaps(mid2, *self),
                    same_options(mid2, *self),
                    self.diag == mid2.diag,
                    self.next_addr == mid2.next_addr,
                    self.blocks@.len() == mid2.blocks@.len(),
                decreases cur_size - i,
            {
                let ghost step = *self;
                let byte = self.load(ptr, i);
                self.store(q, i, byte);
                proof {
                    assert forall|x: usize| x != q && mid2.is_block(x) implies self.block(x)
                        == mid2.block(x) by {
                        assert(step.is_block(x) && step.block(x) == mid2.block(x));
                    }
                }
                i = i + 1;
            }
            let ghost mid3 = *self;
            self.free(ptr);
            proof {
                let post = *self;
                assert(post.block(q) == mid3.block(q));
                assert(post.block(q).data@.subrange(0, cur_size as int) =~= pre.block(
                    ptr,
                ).data@.subrange(0, cur_size as int));
                assert forall|x: usize| x != ptr && x != q implies (post.is_block(x)
                    <==> pre.is_block(x)) by {
                    assert(mid3.is_block(x) <==> mid2.is_block(x));
                    assert(mid2.is_block(x) <==> pre.is_block(x));
                }
                assert forall|x: usize| x != ptr && x != q && pre.is_block(x) implies post
                    .block(x) == pre.block(x) by {
                    assert(mid2.block(x) == pre.block(x));
                    assert(mid3.block(x) == mid2.block(x));
                    assert(mid3.is_block(x));
                }
            }
            Ok(q)
        }
    }

    /// Resize against the ambient default heap; a null `ptr` behaves as
    /// a plain allocation of `new_size` bytes.
    pub fn realloc(&mut self, ptr: usize, new_size: usize) -> (r: Result<usize, AllocError>)
        requires
            old(self).wf(),
            ptr == 0 || old(self).is_block(ptr),
            ptr != 0 ==> old(self).block(ptr).offset == 0 || old(self).block(ptr).offset
                < new_size,
        ensures
            final(self).wf(),
            ptr == 0 ==> {
                &&& (r is Ok <==> old(self).spec_fits(NATURAL_ALIGNMENT, 0, new_size))
                &&& (r matches Ok(p) ==> spec_alloc_post(
                    *old(self),
                    *final(self),
                    AllocRequest { size: new_size, align: 1, zero_init: false, offset: 0 },
                    old(self).default_heap,
                    p,
                ))
            },
            ptr != 0 ==> {
                &&& (r is Ok <==> (new_size <= old(self).block(ptr).usable || old(
                    self,
                ).spec_fits(old(self).block(ptr).align, old(self).block(ptr).offset, new_size)))
                &&& (new_size <= old(self).block(ptr).usable ==> r == Ok::<usize, AllocError>(
                    ptr,
                ) && spec_resize_inplace_post(*old(self), *final(self), ptr, new_size))
                &&& (new_size > old(self).block(ptr).usable ==> (r matches Ok(q)
                    ==> spec_resize_move_post(
                    *old(self),
                    *final(self),
                    ptr,
                    new_size,
                    old(self).default_heap,
                    q,
                )))
                &&& (r matches Ok(q) ==> (q + old(self).block(ptr).offset) % (old(self).block(
                    ptr,
                ).align as int) == 0)
            },
            r is Err ==> (r->Err_0 == AllocError::OutOfMemory && spec_alloc_fail_post(
                *old(self),
                *final(self),
                ERR_ENOMEM,
            )),
    {
        let h = self.default_heap;
        if ptr == 0 {
            proof {
                assert(is_pow2(1int));
            }
            self.dispatch_allocate(AllocRequest::new(new_size, 1), h)
        } else {
            self.dispatch_resize(ptr, new_size, h)
        }
    }

    /// Resize against an explicitly supplied heap; a null `ptr` behaves
    /// as a plain allocation from that heap.
    pub fn heap_realloc(&mut self, h: usize, ptr: usize, new_size: usize) -> (r: Result<
        usize,
        AllocError,
    >)
        requires
            old(self).wf(),
            old(self).is_heap(h),
            ptr == 0 || old(self).is_block(ptr),
            ptr != 0 ==> old(self).block(ptr).offset == 0 || old(self).block(ptr).offset
                < new_size,
        ensures
            final(self).wf(),
            ptr == 0 ==> {
                &&& (r is Ok <==> old(self).spec_fits(NATURAL_ALIGNMENT, 0, new_size))
                &&& (r matches Ok(p) ==> spec_alloc_post(
                    *old(self),
                    *final(self),
                    AllocRequest { size: new_size, align: 1, zero_init: false, offset: 0 },
                    h,
                    p,
                ))
            },
            ptr != 0 ==> {
                &&& (r is Ok <==> (new_size <= old(self).block(ptr).usable || old(
                    self,
                ).spec_fits(old(self).block(ptr).align, old(self).block(ptr).offset, new_size)))
                &&& (new_size <= old(self).block(ptr).usable ==> r == Ok::<usize, AllocError>(
                    ptr,
                ) && spec_resize_inplace_post(*old(self), *final(self), ptr, new_size))
                &&& (new_size > old(self).block(ptr).usable ==> (r matches Ok(q)
                    ==> spec_resize_move_post(*old(self), *final(self), ptr, new_size, h, q)))
                &&& (r matches Ok(q) ==> (q + old(self).block(ptr).offset) % (old(self).block(
                    ptr,
                ).align as int) == 0)
            },
            r is Err ==> (r->Err_0 == AllocError::OutOfMemory && spec_alloc_fail_post(
                *old(self),
                *final(self),
                ERR_ENOMEM,
            )),
    {
        if ptr == 0 {
            proof {
                assert(is_pow2(1int));
            }
            self.dispatch_allocate(AllocRequest::new(new_size, 1), h)
        } else {
            self.dispatch_resize(ptr, new_size, h)
        }
    }

    /// Resize while re-stating the block's alignment, as the C-style
    /// aligned-resize entry points do. The alignment handed in must be
    /// the one the block was carved at: the engine tracks blocks by size
    /// class, and a changed alignment would break its accounting — so a
    /// differing alignment is ruled out before the engine is reached.
    pub fn realloc_aligned(&mut self, ptr: usize, new_size: usize, align: usize) -> (r: Result<
        usize,
        AllocError,
    >)
        requires
            old(self).wf(),
            old(self).is_block(ptr),
            align == old(self).block(ptr).align,
            old(self).block(ptr).offset == 0 || old(self).block(ptr).offset < new_size,
        ensures
            final(self).wf(),
            r is Ok <==> (new_size <= old(self).block(ptr).usable || old(self).spec_fits(
                align,
                old(self).block(ptr).offset,
                new_size,
            )),
            new_size <= old(self).block(ptr).usable ==> r == Ok::<usize, AllocError>(ptr)
                && spec_resize_inplace_post(*old(self), *final(self), ptr, new_size),
            new_size > old(self).block(ptr).usable ==> (r matches Ok(q)
                ==> spec_resize_move_post(
                *old(self),
                *final(self),
                ptr,
                new_size,
                old(self).default_heap,
                q,
            )),
            r matches Ok(q) ==> (q + old(self).block(ptr).offset) % (align as int) == 0,
            r is Err ==> r->Err_0 == AllocError::OutOfMemory && spec_alloc_fail_post(
                *old(self),
                *final(self),
                ERR_ENOMEM,
            ),
    {
        let h = self.default_heap;
        self.dispatch_resize(ptr, new_size, h)
    }

    /// Resize while re-stating the block's alignment and offset, for
    /// blocks from offset-aligned requests. Both must be the values the
    /// block was carved with.
    pub fn realloc_aligned_at(
        &mut self,
        ptr: usize,
        new_size: usize,
        align: usize,
        offset: usize,
    ) -> (r: Result<usize, AllocError>)
        requires
            old(self).wf(),
            old(self).is_block(ptr),
            align == old(self).block(ptr).align,
            offset == old(self).block(ptr).offset,
            offset == 0 || offset < new_size,
        ensures
            final(self).wf(),
            r is Ok <==> (new_size <= old(self).block(ptr).usable || old(self).spec_fits(
                align,
                offset,
                new_size,
            )),
            new_size <= old(self).block(ptr).usable ==> r == Ok::<usize, AllocError>(ptr)
                && spec_resize_inplace_post(*old(self), *final(self), ptr, new_size),
            new_size > old(self).block(ptr).usable ==> (r matches Ok(q)
                ==> spec_resize_move_post(
                *old(self),
                *final(self),
                ptr,
                new_size,
                old(self).default_heap,
                q,
            )),
            r matches Ok(q) ==> (q + offset) % (align as int) == 0,
            r is Err ==> r->Err_0 == AllocError::OutOfMemory && spec_alloc_fail_post(
                *old(self),
                *final(self),
                ERR_ENOMEM,
            ),
    {
        let h = self.default_heap;
        self.dispatch_resize(ptr, new_size, h)
    }

    /// Allocate `count` items of `size` bytes each, zero-initialized,
    /// from the ambient default heap. Fails with an overflow error —
    /// never a silently clamped size — when `count * size` does not fit
    /// in the address-space integer type.
    pub fn calloc(&mut self, count: usize, size: usize) -> (r: Result<usize, AllocError>)
        requires
            old(self).wf(),
        ensures
            final(self).wf(),
            count * size > usize::MAX ==> r == Err::<usize, AllocError>(AllocError::Overflow)
                && spec_alloc_fail_post(*old(self), *final(self), ERR_EOVERFLOW),
            count * size <= usize::MAX ==> {
                &&& r is Ok <==> old(self).spec_fits(
                    NATURAL_ALIGNMENT,
                    0,
                    (count * size) as usize,
                )
                &&& (r matches Ok(p) ==> spec_alloc_post(
                    *old(self),
                    *final(self),
                    AllocRequest {
                        size: (count * size) as usize,
                        align: 1,
                        zero_init: true,
                        offset: 0,
                    },
                    old(self).default_heap,
                    p,
                ))
                &&& (r is Err ==> r->Err_0 == AllocError::OutOfMemory && spec_alloc_fail_post(
                    *old(self),
                    *final(self),
                    ERR_ENOMEM,
                ))
            },
    {
        let total = match checked_request_size(count, size) {
            Ok(n) => n,
            Err(e) => {
                let ghost pre = *self;
                self.diag.note_failure(ERR_EOVERFLOW);
                proof {
                    lemma_blocks_preserved_same(pre, *self);
                }
                return Err(e);
            },
        };
        let h = self.default_heap;
        proof {
            assert(is_pow2(1int));
        }
        self.dispatch_allocate(AllocRequest::zeroed(total, 1), h)
    }

    /// Allocate `count` items of `size` bytes each, uninitialized, from
    /// the ambient default heap, with the same overflow check as
    /// [`MiMalloc::calloc`].
    pub fn mallocn(&mut self, count: usize, size: usize) -> (r: Result<usize, AllocError>)
        requires
            old(self).wf(),
        ensures
            final(self).wf(),
            count * size > usize::MAX ==> r == Err::<usize, AllocError>(AllocError::Overflow)
                && spec_alloc_fail_post(*old(self), *final(self), ERR_EOVERFLOW),
            count * size <= usize::MAX ==> {
                &&& r is Ok <==> old(self).spec_fits(
                    NATURAL_ALIGNMENT,
                    0,
                    (count * size) as usize,
                )
                &&& (r matches Ok(p) ==> spec_alloc_post(
                    *old(self),
                    *final(self),
                    AllocRequest {
                        size: (count * size) as usize,
                        align: 1,
                        zero_init: false,
                        offset: 0,
                    },
                    old(self).default_heap,
                    p,
                ))
                &&& (r is Err ==> r->Err_0 == AllocError::OutOfMemory && spec_alloc_fail_post(
                    *old(self),
                    *final(self),
                    ERR_ENOMEM,
                ))
            },
    {
        let total = match checked_request_size(count, size) {
            Ok(n) => n,
            Err(e) => {
                let ghost pre = *self;
                self.diag.note_failure(ERR_EOVERFLOW);
                proof {
                    lemma_blocks_preserved_same(pre, *self);
                }
                return Err(e);
            },
        };
        let h = self.default_heap;
        proof {
            assert(is_pow2(1int));
        }
        self.dispatch_allocate(AllocRequest::new(total, 1), h)
    }
}

} // verus!
