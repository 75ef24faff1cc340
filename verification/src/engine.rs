//! The model engine: carving fresh blocks out of a linear address space,
//! freeing them, and reading and writing their bytes. Addresses are never
//! reused, which is what makes block identity stable and containment
//! queries meaningful.

use vstd::prelude::*;

verus! {

use crate::align::{
    good_size, is_pow2, lemma_align_up_props, lemma_good_size_bounds, spec_align_up,
    spec_good_size, align_up,
};
use crate::diag::spec_after_free;
use crate::dispatch::AllocError;
use crate::state::{
    blocks_distinct, blocks_preserved_except, lemma_block_lookup, same_heaps, same_options,
    Block, MiMalloc,
};
use vstd::arithmetic::div_mod::{lemma_fundamental_div_mod, lemma_mod_multiples_basic};

/// Where the engine would carve a block: the first address at or past
/// `next` that honours `align` at `offset`, together with the next free
/// address after `usable` bytes — or nothing, if the address space is
/// exhausted.
pub open spec fn spec_carve(next: usize, align: usize, offset: usize, usable: usize) -> Option<
    (usize, usize),
>
    recommends
        align >= 1,
{
    let pad = offset % align;
    if next + pad + align - 1 > usize::MAX {
        None
    } else {
        let addr = spec_align_up(next + pad, align as int) - pad;
        if addr + usable > usize::MAX {
            None
        } else {
            Some((addr as usize, (addr + usable) as usize))
        }
    }
}

/// What a successful carve guarantees: the block begins at or past the
/// frontier, fits in the address space, and honours the alignment at the
/// requested offset.
pub proof fn lemma_carve_props(next: usize, align: usize, offset: usize, usable: usize)
    requires
        is_pow2(align as int),
    ensures
        spec_carve(next, align, offset, usable) matches Some(r) ==> {
            &&& next <= r.0
            &&& r.0 + usable <= usize::MAX
            &&& r.1 == r.0 + usable
            &&& (r.0 + offset) % (align as int) == 0
        },
{
    if spec_carve(next, align, offset, usable) is Some {
        let pad = (offset % align) as int;
        let base = next + pad;
        lemma_align_up_props(base, align as int);
        let aligned = spec_align_up(base, align as int);
        let addr = aligned - pad;
        assert(next <= addr);
        lemma_fundamental_div_mod(offset as int, align as int);
        let q = offset as int / align as int;
        lemma_fundamental_div_mod(aligned, align as int);
        let k = aligned / align as int;
        assert(addr + offset == (k + q) * align) by (nonlinear_arith)
            requires
                aligned == (align as int) * k,
                offset == (align as int) * q + pad,
                addr == aligned - pad,
        {}
        lemma_mod_multiples_basic(k + q, align as int);
    }
}

/// Carve, executably.
fn carve(next: usize, align: usize, offset: usize, usable: usize) -> (r: Option<(usize, usize)>)
    requires
        1 <= align,
    ensures
        r == spec_carve(next, align, offset, usable),
{
    let pad: usize = offset % align;
    if pad > usize::MAX - next {
        return None;
    }
    let base: usize = next + pad;
    if align - 1 > usize::MAX - base {
        return None;
    }
    let aligned: usize = align_up(base, align);
    let addr: usize = aligned - pad;
    if usable > usize::MAX - addr {
        return None;
    }
    Some((addr, addr + usable))
}

/// A vector of `n` zero bytes.
fn zero_vec(n: usize) -> (v: Vec<u8>)
    ensures
        v@ == Seq::new(n as nat, |i: int| 0u8),
{
    let mut v: Vec<u8> = Vec::new();
    let mut i: usize = 0;
    while i < n
        invariant
            i <= n,
            v@.len() == i,
            forall|j: int| 0 <= j < i ==> v@[j] == 0u8,
        decreases n - i,
    {
        v.push(0);
        i = i + 1;
    }
    proof {
        assert(v@ =~= Seq::new(n as nat, |i: int| 0u8));
    }
    v
}

impl MiMalloc {
    /// Whether the model address space still has room for a block of
    /// `size` bytes carved at `align`/`offset`.
    pub open spec fn spec_fits(self, align: usize, offset: usize, size: usize) -> bool {
        spec_carve(self.next_addr, align, offset, spec_good_size(size)) is Some
    }

    /// The address such a carve would return.
    pub open spec fn spec_carved_addr(self, align: usize, offset: usize, size: usize) -> usize {
        spec_carve(self.next_addr, align, offset, spec_good_size(size))->Some_0.0
    }

    /// Carve a fresh block for heap `h`: `size` requested bytes backed by
    /// `good_size(size)` usable bytes, placed so that `align` holds
    /// `offset` bytes into the block. This is the engine primitive every
    /// allocation entry point bottoms out in; it touches no diagnostic
    /// state.
    pub(crate) fn carve_block(
        &mut self,
        h: usize,
        size: usize,
        align: usize,
        offset: usize,
        zero: bool,
    ) -> (r: Result<usize, AllocError>)
        requires
            old(self).wf(),
            old(self).is_heap(h),
            is_pow2(align as int),
            offset == 0 || offset < size,
        ensures
            final(self).wf(),
            same_heaps(*old(self), *final(self)),
            same_options(*old(self), *final(self)),
            final(self).diag == old(self).diag,
            r is Ok <==> old(self).spec_fits(align, offset, size),
            r is Err ==> r->Err_0 == AllocError::OutOfMemory && final(self).blocks
                == old(self).blocks && final(self).next_addr == old(self).next_addr,
            r matches Ok(p) ==> {
                &&& p == old(self).spec_carved_addr(align, offset, size)
                &&& p != 0
                &&& !old(self).is_block(p)
                &&& final(self).is_block(p)
                &&& final(self).block(p).heap == h
                &&& final(self).block(p).size == size
                &&& final(self).block(p).usable == spec_good_size(size)
                &&& final(self).block(p).align == align
                &&& final(self).block(p).offset == offset
                &&& (p + offset) % (align as int) == 0
                &&& final(self).block(p).data@.len() == spec_good_size(size)
                &&& (zero ==> final(self).block(p).data@ == Seq::new(
                    spec_good_size(size) as nat,
                    |i: int| 0u8,
                ))
                &&& blocks_preserved_except(*old(self), *final(self), p)
                &&& final(self).blocks@.len() == old(self).blocks@.len() + 1
            },
    {
        let usable = good_size(size);
        let _ = zero;
        match carve(self.next_addr, align, offset, usable) {
            None => Err(AllocError::OutOfMemory),
            Some((addr, new_next)) => {
                proof {
                    lemma_carve_props(self.next_addr, align, offset, usable);
                    lemma_good_size_bounds(size);
                    assert(!self.is_block(addr)) by {
                        if self.is_block(addr) {
                            let i = self.block_index(addr);
                            assert(self.blocks@[i].addr < self.next_addr);
                        }
                    }
                    assert(h >= 1) by {
                        let i = choose|i: int|
                            0 <= i < self.heaps@.len() && self.heaps@[i] == h;
                        assert(self.heaps@[i] >= 1);
                    }
                }
                let ghost pre = *self;
                let data = zero_vec(usable);
                let b = Block { addr, heap: h, size, usable, align, offset, data };
                self.blocks.push(b);
                self.next_addr = new_next;
                proof {
                    let post = *self;
                    let n = pre.blocks@.len() as int;
                    assert(post.blocks@ == pre.blocks@.push(b));
                    assert forall|i: int| 0 <= i < post.blocks@.len() implies (
                        #[trigger] post.blocks@[i]).addr < post.next_addr by {
                        if i < n {
                            assert(pre.blocks@[i].addr < pre.next_addr);
                        }
                    }
                    assert(blocks_distinct(post.blocks@)) by {
                        assert forall|i: int, j: int| 0 <= i < j < post.blocks@.len() implies
                            post.blocks@[i].addr != post.blocks@[j].addr by {
                            if j < n {
                                assert(pre.blocks@[i].addr != pre.blocks@[j].addr);
                            } else {
                                assert(pre.blocks@[i].addr < pre.next_addr);
                            }
                        }
                    }
                    lemma_block_lookup(post, n);
                    assert(blocks_preserved_except(pre, post, addr)) by {
                        assert forall|q: usize| q != addr implies (post.is_block(q)
                            <==> pre.is_block(q)) by {
                            if post.is_block(q) {
                                let i = post.block_index(q);
                                assert(post.blocks@[i].addr == q);
                                if i < n {
                                    lemma_block_lookup(pre, i);
                                }
                            }
                            if pre.is_block(q) {
                                let i = pre.block_index(q);
                                assert(pre.blocks@[i].addr == q);
                                lemma_block_lookup(post, i);
                            }
                        }
                        assert forall|q: usize| q != addr && pre.is_block(q) implies post.block(
                            q,
                        ) == pre.block(q) by {
                            let i = pre.block_index(q);
                            assert(pre.blocks@[i].addr == q);
                            lemma_block_lookup(post, i);
                        }
                    }
                }
                Ok(addr)
            },
        }
    }

    /// Index of the live block at `ptr`, if any.
    pub(crate) fn find_block(&self, ptr: usize) -> (r: Option<usize>)
        requires
            self.wf(),
        ensures
            match r {
                Some(i) => self.is_block(ptr) && i < self.blocks@.len() && self.blocks@[
                    i as int
                ].addr == ptr && i == self.block_index(ptr),
                None => !self.is_block(ptr),
            },
    {
        let mut i: usize = 0;
        while i < self.blocks.len()
            invariant
                self.wf(),
                i <= self.blocks@.len(),
                forall|j: int| 0 <= j < i ==> self.blocks@[j].addr != ptr,
            decreases self.blocks@.len() - i,
        {
            if self.blocks[i].addr == ptr {
                proof {
                    lemma_block_lookup(*self, i as int);
                }
                return Some(i);
            }
            i = i + 1;
        }
        None
    }

    /// Forward a free to the engine. Freeing the null pointer is a no-op
    /// under any state; freeing a live block removes it for good.
    pub fn free(&mut self, ptr: usize)
        requires
            old(self).wf(),
            ptr == 0 || old(self).is_block(ptr),
        ensures
            final(self).wf(),
            ptr == 0 ==> *final(self) == *old(self),
            ptr != 0 ==> {
                &&& !final(self).is_block(ptr)
                &&& blocks_preserved_except(*old(self), *final(self), ptr)
                &&& final(self).blocks@.len() == old(self).blocks@.len() - 1
                &&& same_heaps(*old(self), *final(self))
                &&& same_options(*old(self), *final(self))
                &&& final(self).next_addr == old(self).next_addr
                &&& final(self).diag@ == spec_after_free(old(self).diag@)
            },
    {
        if ptr == 0 {
            return;
        }
        let idx = match self.find_block(ptr) {
            Some(i) => i,
            None => unreached(),
        };
        let ghost pre = *self;
        self.blocks.remove(idx);
        proof {
            lemma_blocks_removed(pre, *self, idx as int);
        }
        self.diag.note_free();
    }

    /// Return the usable capacity backing `ptr`: at least the size
    /// requested when the block was allocated, and stable until the block
    /// is freed or resized. The null pointer has no capacity.
    pub fn usable_size(&self, ptr: usize) -> (r: usize)
        requires
            self.wf(),
            ptr == 0 || self.is_block(ptr),
        ensures
            ptr == 0 ==> r == 0,
            ptr != 0 ==> r == self.block(ptr).usable,
            ptr != 0 ==> r >= self.block(ptr).size,
    {
        if ptr == 0 {
            return 0;
        }
        match self.find_block(ptr) {
            Some(i) => {
                proof {
                    assert(self.blocks@[i as int].wf());
                }
                self.blocks[i].usable
            },
            None => unreached(),
        }
    }

    /// Read one byte of a live block.
    pub fn load(&self, ptr: usize, i: usize) -> (r: u8)
        requires
            self.wf(),
            self.is_block(ptr),
            i < self.block(ptr).usable,
        ensures
            r == self.block(ptr).data@[i as int],
    {
        match self.find_block(ptr) {
            Some(idx) => {
                proof {
                    assert(self.blocks@[idx as int].wf());
                }
                self.blocks[idx].data[i]
            },
            None => unreached(),
        }
    }

    /// Write one byte of a live block.
    pub fn store(&mut self, ptr: usize, i: usize, value: u8)
        requires
            old(self).wf(),
            old(self).is_block(ptr),
            i < old(self).block(ptr).usable,
        ensures
            final(self).wf(),
            final(self).is_block(ptr),
            final(self).block(ptr).data@ == old(self).block(ptr).data@.update(i as int, value),
            final(self).block(ptr).addr == old(self).block(ptr).addr,
            final(self).block(ptr).heap == old(self).block(ptr).heap,
            final(self).block(ptr).size == old(self).block(ptr).size,
            final(self).block(ptr).usable == old(self).block(ptr).usable,
            final(self).block(ptr).align == old(self).block(ptr).align,
            final(self).block(ptr).offset == old(self).block(ptr).offset,
            blocks_preserved_except(*old(self), *final(self), ptr),
            final(self).blocks@.len() == old(self).blocks@.len(),
            same_heaps(*old(self), *final(self)),
            same_options(*old(self), *final(self)),
            final(self).next_addr == old(self).next_addr,
            final(self).diag == old(self).diag,
    {
        let idx = match self.find_block(ptr) {
            Some(i) => i,
            None => unreached(),
        };
        proof {
            assert(self.blocks@[idx as int].wf());
        }
        let ghost pre = *self;
        self.blocks[idx].data[i] = value;
        proof {
            let post = *self;
            let n = pre.blocks@.len() as int;
            let k = idx as int;
            assert(post.blocks@[k].addr == pre.blocks@[k].addr);
            assert forall|j: int| 0 <= j < n && j != k implies post.blocks@[j]
                == pre.blocks@[j] by {}
            assert(blocks_distinct(post.blocks@)) by {
                assert forall|a: int, b: int| 0 <= a < b < n implies post.blocks@[a].addr
                    != post.blocks@[b].addr by {
                    assert(pre.blocks@[a].addr != pre.blocks@[b].addr);
                }
            }
            lemma_block_lookup(post, k);
            assert(blocks_preserved_except(pre, post, ptr)) by {
                assert forall|q: usize| q != ptr implies (post.is_block(q) <==> pre.is_block(
                    q,
                )) by {
                    if post.is_block(q) {
                        let i2 = post.block_index(q);
                        lemma_block_lookup(pre, i2);
                    }
                    if pre.is_block(q) {
                        let i2 = pre.block_index(q);
                        lemma_block_lookup(post, i2);
                    }
                }
                assert forall|q: usize| q != ptr && pre.is_block(q) implies post.block(q)
                    == pre.block(q) by {
                    let i2 = pre.block_index(q);
                    assert(pre.blocks@[i2].addr == q);
                    lemma_block_lookup(post, i2);
                }
            }
        }
    }
}

/// Removing one block from a distinct block list keeps it distinct,
/// removes exactly that address, and leaves every other block in place.
pub(crate) proof fn lemma_blocks_removed(pre: MiMalloc, post: MiMalloc, idx: int)
    requires
        pre.wf(),
        0 <= idx < pre.blocks@.len(),
        post.blocks@ == pre.blocks@.remove(idx),
        post.heaps@ == pre.heaps@,
        post.backing == pre.backing,
        post.default_heap == pre.default_heap,
        post.next_heap_id == pre.next_heap_id,
        post.next_addr == pre.next_addr,
        post.options == pre.options,
        post.diag == pre.diag,
    ensures
        blocks_distinct(post.blocks@),
        !post.is_block(pre.blocks@[idx].addr),
        blocks_preserved_except(pre, post, pre.blocks@[idx].addr),
        post.wf(),
{
    let s = pre.blocks@;
    let t = post.blocks@;
    let p = s[idx].addr;
    let n = s.len() as int;
    assert forall|i: int| 0 <= i < t.len() implies #[trigger] t[i] == (if i < idx {
        s[i]
    } else {
        s[i + 1]
    }) by {}
    assert(blocks_distinct(t)) by {
        assert forall|a: int, b: int| 0 <= a < b < t.len() implies t[a].addr != t[b].addr by {
            let a2 = if a < idx { a } else { a + 1 };
            let b2 = if b < idx { b } else { b + 1 };
            assert(s[a2].addr != s[b2].addr);
        }
    }
    assert(!post.is_block(p)) by {
        if post.is_block(p) {
            let i = post.block_index(p);
            let i2 = if i < idx { i } else { i + 1 };
            assert(s[i2].addr == p);
            if i2 != idx {
                assert(s[idx].addr != s[i2].addr || s[i2].addr != s[idx].addr);
                assert(false);
            }
        }
    }
    assert forall|q: usize| q != p implies (post.is_block(q) <==> pre.is_block(q)) by {
        if post.is_block(q) {
            let i = post.block_index(q);
            let i2 = if i < idx { i } else { i + 1 };
            assert(s[i2].addr == q);
            lemma_block_lookup(pre, i2);
        }
        if pre.is_block(q) {
            let i = pre.block_index(q);
            assert(s[i].addr == q);
            if i < idx {
                assert(t[i].addr == q);
            } else {
                assert(i != idx);
                assert(t[i - 1].addr == q);
            }
        }
    }
    assert forall|q: usize| q != p && pre.is_block(q) implies post.block(q) == pre.block(q) by {
        let i = pre.block_index(q);
        assert(s[i].addr == q);
        let j = if i < idx { i } else { i - 1 };
        assert(t[j].addr == q);
        assert(t[j] == s[i]);
        assert(post.is_block(q)) by {
            assert(0 <= j < t.len() && t[j].addr == q);
        }
        let j2 = post.block_index(q);
        if j2 != j {
            assert(t[j2].addr != t[j].addr);
            assert(false);
        }
    }
    assert(post.wf()) by {
        assert forall|i: int| 0 <= i < t.len() implies (#[trigger] t[i]).wf() && post.is_heap(
            t[i].heap,
        ) && t[i].addr < post.next_addr by {
            let i2 = if i < idx { i } else { i + 1 };
            assert(s[i2].wf());
            assert(pre.is_heap(s[i2].heap));
            assert(s[i2].addr < pre.next_addr);
        }
    }
}

} // verus!
