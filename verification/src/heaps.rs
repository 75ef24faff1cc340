//! The heap manager: creating, promoting, deleting and destroying
//! isolated heaps, and the ownership queries over them. Deleting a heap
//! migrates its live blocks to the backing heap; destroying it frees them
//! in one pass. Either way, if the heap was the ambient default, the
//! default reverts to the backing heap.

use vstd::prelude::*;

verus! {

use crate::diag::spec_after_deferred;
use crate::dispatch::AllocError;
use crate::engine::lemma_blocks_removed;
use crate::state::{
    blocks_distinct, blocks_preserved, lemma_block_lookup, lemma_blocks_preserved_same,
    same_options, Block, MiMalloc,
};

impl MiMalloc {
    /// The heap that ambient (unscoped) allocation calls currently target.
    pub fn heap_get_default(&self) -> (r: usize)
        ensures
            r == self.default_heap,
    {
        self.default_heap
    }

    /// The backing heap: the initial default, always present, never
    /// deletable or destroyable.
    pub fn heap_get_backing(&self) -> (r: usize)
        ensures
            r == self.backing,
    {
        self.backing
    }

    /// Make `h` the ambient default and hand back the previous default;
    /// the caller is responsible for eventually restoring it. Nothing
    /// else changes.
    pub fn heap_set_default(&mut self, h: usize) -> (r: usize)
        requires
            old(self).wf(),
            old(self).is_heap(h),
        ensures
            final(self).wf(),
            r == old(self).default_heap,
            final(self).default_heap == h,
            *final(self) == (MiMalloc { default_heap: h, ..*old(self) }),
    {
        let previous = self.default_heap;
        self.default_heap = h;
        previous
    }

    /// Create a fresh, empty, isolated heap and return its handle. The
    /// new heap is neither the default nor the backing heap. Creation
    /// fails only when heap identities are exhausted.
    pub fn heap_new(&mut self) -> (r: Result<usize, AllocError>)
        requires
            old(self).wf(),
        ensures
            final(self).wf(),
            r is Ok <==> old(self).next_heap_id < usize::MAX,
            r is Err ==> r->Err_0 == AllocError::OutOfMemory && *final(self) == *old(self),
            r matches Ok(h) ==> {
                &&& h == old(self).next_heap_id
                &&& !old(self).is_heap(h)
                &&& final(self).is_heap(h)
                &&& h != final(self).backing
                &&& h != final(self).default_heap
                &&& forall|g: usize| g != h ==> (final(self).is_heap(g) <==> old(self).is_heap(g))
                &&& final(self).heaps@ == old(self).heaps@.push(h)
                &&& final(self).next_heap_id == old(self).next_heap_id + 1
                &&& final(self).backing == old(self).backing
                &&& final(self).default_heap == old(self).default_heap
                &&& final(self).blocks == old(self).blocks
                &&& final(self).next_addr == old(self).next_addr
                &&& final(self).options == old(self).options
                &&& final(self).diag == old(self).diag
            },
    {
        if self.next_heap_id == usize::MAX {
            return Err(AllocError::OutOfMemory);
        }
        let h = self.next_heap_id;
        proof {
            assert(!self.is_heap(h)) by {
                if self.is_heap(h) {
                    let i = choose|i: int|
                        0 <= i < self.heaps@.len() && self.heaps@[i] == h;
                    assert(self.heaps@[i] < self.next_heap_id);
                }
            }
        }
        let ghost pre = *self;
        self.heaps.push(h);
        self.next_heap_id = self.next_heap_id + 1;
        proof {
            let post = *self;
            let n = pre.heaps@.len() as int;
            assert(post.heaps@[n] == h);
            assert(post.is_heap(h));
            assert(post.is_heap(post.backing)) by {
                let i = choose|i: int| 0 <= i < pre.heaps@.len() && pre.heaps@[i] == pre.backing;
                assert(post.heaps@[i] == pre.backing);
            }
            assert(post.is_heap(post.default_heap)) by {
                let i = choose|i: int|
                    0 <= i < pre.heaps@.len() && pre.heaps@[i] == pre.default_heap;
                assert(post.heaps@[i] == pre.default_heap);
            }
            assert(h != post.backing && h != post.default_heap) by {
                let i = choose|i: int| 0 <= i < pre.heaps@.len() && pre.heaps@[i] == pre.backing;
                let j = choose|j: int|
                    0 <= j < pre.heaps@.len() && pre.heaps@[j] == pre.default_heap;
                assert(pre.heaps@[i] < pre.next_heap_id);
                assert(pre.heaps@[j] < pre.next_heap_id);
            }
            assert forall|g: usize| g != h implies (post.is_heap(g) <==> pre.is_heap(g)) by {
                if post.is_heap(g) {
                    let i = choose|i: int|
                        0 <= i < post.heaps@.len() && post.heaps@[i] == g;
                    if i < n {
                        assert(pre.heaps@[i] == g);
                    }
                }
                if pre.is_heap(g) {
                    let i = choose|i: int| 0 <= i < pre.heaps@.len() && pre.heaps@[i] == g;
                    assert(post.heaps@[i] == g);
                }
            }
            assert forall|i: int| 0 <= i < post.blocks@.len() implies post.is_heap(
                #[trigger] post.blocks@[i].heap,
            ) by {
                assert(pre.is_heap(pre.blocks@[i].heap));
                let j = choose|j: int|
                    0 <= j < pre.heaps@.len() && pre.heaps@[j] == pre.blocks@[i].heap;
                assert(post.heaps@[j] == pre.blocks@[i].heap);
            }
        }
        Ok(h)
    }

    /// Does heap `h` contain the block at `ptr`? The pointer must be a
    /// live allocation (from any heap); this is the fast, unchecked
    /// containment query.
    pub fn heap_contains_block(&self, h: usize, ptr: usize) -> (r: bool)
        requires
            self.wf(),
            self.is_heap(h),
            self.is_block(ptr),
        ensures
            r == (self.block(ptr).heap == h),
    {
        match self.find_block(ptr) {
            Some(i) => self.blocks[i].heap == h,
            None => unreached(),
        }
    }

    /// Check safely whether an arbitrary pointer value — previously
    /// allocated or not — is a live block of heap `h`. Never faults,
    /// whatever `ptr` holds; a linear scan, documented as expensive.
    pub fn heap_check_owned(&self, h: usize, ptr: usize) -> (r: bool)
        requires
            self.wf(),
            self.is_heap(h),
        ensures
            r == self.owned_by(ptr, h),
    {
        match self.find_block(ptr) {
            Some(i) => self.blocks[i].heap == h,
            None => false,
        }
    }

    /// Check safely whether an arbitrary pointer value is a live block of
    /// the ambient default heap.
    pub fn check_owned(&self, ptr: usize) -> (r: bool)
        requires
            self.wf(),
        ensures
            r == self.owned_by(ptr, self.default_heap),
    {
        let h = self.default_heap;
        match self.find_block(ptr) {
            Some(i) => self.blocks[i].heap == h,
            None => false,
        }
    }

    /// Eagerly reclaim memory: the deferred-free callback, if registered,
    /// runs once, with `force` asking it to free everything possible.
    pub fn collect(&mut self, force: bool)
        requires
            old(self).wf(),
        ensures
            final(self).wf(),
            final(self).diag@ == spec_after_deferred(old(self).diag@, force),
            blocks_preserved(*old(self), *final(self)),
            final(self).heaps == old(self).heaps,
            final(self).backing == old(self).backing,
            final(self).default_heap == old(self).default_heap,
            final(self).next_heap_id == old(self).next_heap_id,
            final(self).blocks == old(self).blocks,
            final(self).next_addr == old(self).next_addr,
            same_options(*old(self), *final(self)),
    {
        self.diag.invoke_deferred(force);
        proof {
            lemma_blocks_preserved_same(*old(self), *self);
        }
    }

    /// Eagerly reclaim memory held by one heap; observable effects are
    /// the same as a process-wide collection.
    pub fn heap_collect(&mut self, h: usize, force: bool)
        requires
            old(self).wf(),
            old(self).is_heap(h),
        ensures
            final(self).wf(),
            final(self).diag@ == spec_after_deferred(old(self).diag@, force),
            blocks_preserved(*old(self), *final(self)),
            final(self).heaps == old(self).heaps,
            final(self).backing == old(self).backing,
            final(self).default_heap == old(self).default_heap,
            final(self).next_heap_id == old(self).next_heap_id,
            final(self).blocks == old(self).blocks,
            final(self).next_addr == old(self).next_addr,
            same_options(*old(self), *final(self)),
    {
        self.diag.invoke_deferred(force);
        proof {
            lemma_blocks_preserved_same(*old(self), *self);
        }
    }

    /// Index of heap `h` in the live-heap list, if present.
    fn find_heap(&self, h: usize) -> (r: Option<usize>)
        ensures
            match r {
                Some(i) => i < self.heaps@.len() && self.heaps@[i as int] == h,
                None => !self.is_heap(h),
            },
    {
        let mut i: usize = 0;
        while i < self.heaps.len()
            invariant
                i <= self.heaps@.len(),
                forall|j: int| 0 <= j < i ==> self.heaps@[j] != h,
            decreases self.heaps@.len() - i,
        {
            if self.heaps[i] == h {
                return Some(i);
            }
            i = i + 1;
        }
        None
    }

    /// Index of some live block owned by heap `h`, if one exists.
    fn find_heap_block(&self, h: usize) -> (r: Option<usize>)
        ensures
            match r {
                Some(i) => i < self.blocks@.len() && self.blocks@[i as int].heap == h,
                None => forall|j: int|
                    0 <= j < self.blocks@.len() ==> (#[trigger] self.blocks@[j]).heap != h,
            },
    {
        let mut i: usize = 0;
        while i < self.blocks.len()
            invariant
                i <= self.blocks@.len(),
                forall|j: int| 0 <= j < i ==> (#[trigger] self.blocks@[j]).heap != h,
            decreases self.blocks@.len() - i,
        {
            if self.blocks[i].heap == h {
                return Some(i);
            }
            i = i + 1;
        }
        None
    }

    /// Retire the bookkeeping entry of heap `h` once no live block is
    /// owned by it any more, reverting the default to the backing heap if
    /// `h` was the default.
    fn drop_heap_entry(&mut self, h: usize)
        requires
            old(self).wf(),
            old(self).is_heap(h),
            h != old(self).backing,
            forall|i: int|
                0 <= i < old(self).blocks@.len() ==> (#[trigger] old(self).blocks@[i]).heap != h,
        ensures
            final(self).wf(),
            !final(self).is_heap(h),
            forall|g: usize| g != h ==> (final(self).is_heap(g) <==> old(self).is_heap(g)),
            final(self).backing == old(self).backing,
            final(self).next_heap_id == old(self).next_heap_id,
            final(self).default_heap == (if old(self).default_heap == h {
                old(self).backing
            } else {
                old(self).default_heap
            }),
            final(self).blocks == old(self).blocks,
            final(self).next_addr == old(self).next_addr,
            final(self).options == old(self).options,
            final(self).diag == old(self).diag,
            blocks_preserved(*old(self), *final(self)),
    {
        let idx = match self.find_heap(h) {
            Some(i) => i,
            None => unreached(),
        };
        let ghost pre = *self;
        self.heaps.remove(idx);
        if self.default_heap == h {
            self.default_heap = self.backing;
        }
        proof {
            let post = *self;
            let s = pre.heaps@;
            let t = post.heaps@;
            let k = idx as int;
            assert forall|i: int| 0 <= i < t.len() implies #[trigger] t[i] == (if i < k {
                s[i]
            } else {
                s[i + 1]
            }) by {}
            assert(!post.is_heap(h)) by {
                if post.is_heap(h) {
                    let i = choose|i: int| 0 <= i < t.len() && t[i] == h;
                    let i2 = if i < k {
                        i
                    } else {
                        i + 1
                    };
                    assert(s[i2] == h);
                    assert(s[k] == h);
                    assert(i2 != k);
                    assert(s[i2] != s[k] || s[k] != s[i2]);
                }
            }
            assert forall|g: usize| g != h implies (post.is_heap(g) <==> pre.is_heap(g)) by {
                if post.is_heap(g) {
                    let i = choose|i: int| 0 <= i < t.len() && t[i] == g;
                    let i2 = if i < k {
                        i
                    } else {
                        i + 1
                    };
                    assert(s[i2] == g);
                }
                if pre.is_heap(g) {
                    let i = choose|i: int| 0 <= i < s.len() && s[i] == g;
                    assert(i != k);
                    if i < k {
                        assert(t[i] == g);
                    } else {
                        assert(t[i - 1] == g);
                    }
                }
            }
            assert(post.wf()) by {
                assert forall|a: int, b: int| 0 <= a < b < t.len() implies t[a] != t[b] by {
                    let a2 = if a < k {
                        a
                    } else {
                        a + 1
                    };
                    let b2 = if b < k {
                        b
                    } else {
                        b + 1
                    };
                    assert(s[a2] != s[b2]);
                }
                assert forall|i: int| 0 <= i < t.len() implies 1 <= #[trigger] t[i]
                    < post.next_heap_id by {
                    let i2 = if i < k {
                        i
                    } else {
                        i + 1
                    };
                    assert(1 <= s[i2] < pre.next_heap_id);
                }
                assert(post.is_heap(post.backing)) by {
                    assert(pre.backing != h);
                }
                assert(post.is_heap(post.default_heap)) by {
                    if pre.default_heap != h {
                        assert(pre.is_heap(pre.default_heap));
                    }
                }
                assert forall|i: int| 0 <= i < post.blocks@.len() implies post.is_heap(
                    #[trigger] post.blocks@[i].heap,
                ) by {
                    assert(pre.is_heap(pre.blocks@[i].heap));
                    assert(pre.blocks@[i].heap != h);
                }
            }
            lemma_blocks_preserved_same(pre, post);
        }
    }

    /// Delete heap `h`: release its bookkeeping and migrate every block
    /// still live in it to the backing heap. No block pointer is
    /// invalidated — every block stays live, keeps its contents, its
    /// sizes and its alignment, and only its owner changes. If `h` was
    /// the default heap, the default reverts to the backing heap. The
    /// backing heap itself can never be deleted.
    pub fn heap_delete(&mut self, h: usize)
        requires
            old(self).wf(),
            old(self).is_heap(h),
            h != old(self).backing,
        ensures
            final(self).wf(),
            !final(self).is_heap(h),
            forall|g: usize| g != h ==> (final(self).is_heap(g) <==> old(self).is_heap(g)),
            final(self).backing == old(self).backing,
            final(self).next_heap_id == old(self).next_heap_id,
            final(self).default_heap == (if old(self).default_heap == h {
                old(self).backing
            } else {
                old(self).default_heap
            }),
            final(self).next_addr == old(self).next_addr,
            final(self).options == old(self).options,
            final(self).diag == old(self).diag,
            forall|q: usize| final(self).is_block(q) <==> old(self).is_block(q),
            forall|q: usize|
                old(self).is_block(q) ==> final(self).block(q) == (Block {
                    heap: if old(self).block(q).heap == h {
                        old(self).backing
                    } else {
                        old(self).block(q).heap
                    },
                    ..old(self).block(q)
                }),
    {
        let ghost pre = *self;
        let backing = self.backing;
        let n = self.blocks.len();
        let mut i: usize = 0;
        while i < n
            invariant
                i <= n,
                n == self.blocks@.len(),
                n == pre.blocks@.len(),
                backing == pre.backing,
                pre.wf(),
                h != backing,
                forall|j: int|
                    0 <= j < i ==> #[trigger] self.blocks@[j] == (Block {
                        heap: if pre.blocks@[j].heap == h {
                            backing
                        } else {
                            pre.blocks@[j].heap
                        },
                        ..pre.blocks@[j]
                    }),
                forall|j: int| i <= j < n ==> #[trigger] self.blocks@[j] == pre.blocks@[j],
                self.heaps == pre.heaps,
                self.backing == pre.backing,
                self.default_heap == pre.default_heap,
                self.next_heap_id == pre.next_heap_id,
                self.next_addr == pre.next_addr,
                self.options == pre.options,
                self.diag == pre.diag,
            decreases n - i,
        {
            if self.blocks[i].heap == h {
                self.blocks[i].heap = backing;
            }
            i = i + 1;
        }
        proof {
            let mid = *self;
            assert(mid.wf()) by {
                assert(pre.is_heap(backing));
                assert forall|j: int| 0 <= j < n implies (#[trigger] mid.blocks@[j]).wf()
                    && mid.is_heap(mid.blocks@[j].heap) && mid.blocks@[j].addr
                    < mid.next_addr by {
                    assert(pre.blocks@[j].wf());
                    assert(pre.is_heap(pre.blocks@[j].heap));
                    assert(backing >= 1) by {
                        let bi = choose|bi: int|
                            0 <= bi < pre.heaps@.len() && pre.heaps@[bi] == backing;
                        assert(pre.heaps@[bi] >= 1);
                    }
                }
                assert(blocks_distinct(mid.blocks@)) by {
                    assert forall|a: int, b: int| 0 <= a < b < n implies mid.blocks@[a].addr
                        != mid.blocks@[b].addr by {
                        assert(pre.blocks@[a].addr != pre.blocks@[b].addr);
                    }
                }
            }
            assert forall|j: int| 0 <= j < n implies (#[trigger] mid.blocks@[j]).heap != h by {}
        }
        self.drop_heap_entry(h);
        proof {
            let post = *self;
            assert forall|q: usize| (post.is_block(q) <==> pre.is_block(q)) by {
                if post.is_block(q) {
                    let i2 = post.block_index(q);
                    assert(post.blocks@[i2].addr == q);
                    assert(pre.blocks@[i2].addr == q);
                }
                if pre.is_block(q) {
                    let i2 = pre.block_index(q);
                    assert(pre.blocks@[i2].addr == q);
                    assert(post.blocks@[i2].addr == q);
                }
            }
            assert forall|q: usize| pre.is_block(q) implies post.block(q) == (Block {
                heap: if pre.block(q).heap == h {
                    pre.backing
                } else {
                    pre.block(q).heap
                },
                ..pre.block(q)
            }) by {
                let i2 = pre.block_index(q);
                lemma_block_lookup(pre, i2);
                assert(post.blocks@[i2].addr == q);
                lemma_block_lookup(post, i2);
            }
        }
    }

    /// Destroy heap `h`: free every block still live in it in one pass
    /// and release the heap. Every pointer allocated from `h` becomes
    /// invalid immediately; blocks of other heaps are untouched. If `h`
    /// was the default heap, the default reverts to the backing heap. The
    /// backing heap itself can never be destroyed.
    pub fn heap_destroy(&mut self, h: usize)
        requires
            old(self).wf(),
            old(self).is_heap(h),
            h != old(self).backing,
        ensures
            final(self).wf(),
            !final(self).is_heap(h),
            forall|g: usize| g != h ==> (final(self).is_heap(g) <==> old(self).is_heap(g)),
            final(self).backing == old(self).backing,
            final(self).next_heap_id == old(self).next_heap_id,
            final(self).default_heap == (if old(self).default_heap == h {
                old(self).backing
            } else {
                old(self).default_heap
            }),
            final(self).next_addr == old(self).next_addr,
            final(self).options == old(self).options,
            final(self).diag == old(self).diag,
            forall|q: usize|
                final(self).is_block(q) <==> (old(self).is_block(q) && old(self).block(q).heap
                    != h),
            forall|q: usize|
                old(self).is_block(q) && old(self).block(q).heap != h ==> final(self).block(q)
                    == old(self).block(q),
    {
        let ghost pre = *self;
        loop
            invariant
                self.wf(),
                self.is_heap(h),
                h != self.backing,
                self.heaps == pre.heaps,
                self.backing == pre.backing,
                self.default_heap == pre.default_heap,
                self.next_heap_id == pre.next_heap_id,
                self.next_addr == pre.next_addr,
                self.options == pre.options,
                self.diag == pre.diag,
                forall|q: usize|
                    self.is_block(q) ==> pre.is_block(q) && self.block(q) == pre.block(q),
                forall|q: usize|
                    pre.is_block(q) && pre.block(q).heap != h ==> self.is_block(q),
            ensures
                self.wf(),
                self.is_heap(h),
                h != self.backing,
                self.heaps == pre.heaps,
                self.backing == pre.backing,
                self.default_heap == pre.default_heap,
                self.next_heap_id == pre.next_heap_id,
                self.next_addr == pre.next_addr,
                self.options == pre.options,
                self.diag == pre.diag,
                forall|q: usize|
                    self.is_block(q) ==> pre.is_block(q) && self.block(q) == pre.block(q),
                forall|q: usize|
                    pre.is_block(q) && pre.block(q).heap != h ==> self.is_block(q),
                forall|j: int|
                    0 <= j < self.blocks@.len() ==> (#[trigger] self.blocks@[j]).heap != h,
            decreases self.blocks@.len(),
        {
            let idx = match self.find_heap_block(h) {
                Some(i) => i,
                None => { break; },
            };
            let ghost mid = *self;
            let ghost victim = mid.blocks@[idx as int].addr;
            self.blocks.remove(idx);
            proof {
                lemma_blocks_removed(mid, *self, idx as int);
                lemma_block_lookup(mid, idx as int);
                let post = *self;
                assert forall|q: usize| post.is_block(q) implies pre.is_block(q) && post.block(
                    q,
                ) == pre.block(q) by {
                    assert(q != victim);
                    assert(mid.is_block(q) && post.block(q) == mid.block(q));
                }
                assert forall|q: usize| pre.is_block(q) && pre.block(q).heap != h implies post
                    .is_block(q) by {
                    assert(mid.is_block(q));
                    assert(mid.block(q) == pre.block(q));
                    assert(mid.block(victim).heap == h);
                    assert(q != victim);
                }
            }
        }
        self.drop_heap_entry(h);
        proof {
            let post = *self;
            assert forall|q: usize| post.is_block(q) implies (pre.is_block(q) && pre.block(
                q,
            ).heap != h) by {
                let i = post.block_index(q);
                assert(post.blocks@[i].addr == q);
                lemma_block_lookup(post, i);
                assert(post.blocks@[i].heap != h);
            }
        }
    }
}

} // verus!
