//! The alignment dispatcher: given an allocation request, pick the
//! cheapest engine entry point that still honours the request's alignment,
//! and refuse alignments the engine cannot represent.

use vstd::prelude::*;

verus! {

use crate::align::{is_pow2, is_power_of_two, NATURAL_ALIGNMENT};

/// Largest alignment the engine's over-aligned path can represent. A
/// request above this ceiling fails fast instead of being forwarded, since
/// forwarding would silently misbehave.
pub const ALIGNMENT_CEILING: usize = 0x8000_0000;

/// Why an allocation request could not be satisfied.
#[derive(Clone, Copy, Debug, PartialEq, Eq, Structural)]
pub enum AllocError {
    /// The engine could not satisfy the request.
    OutOfMemory,
    /// A computed byte count (count times size) does not fit in `usize`.
    Overflow,
    /// The requested alignment exceeds [`ALIGNMENT_CEILING`].
    UnsupportedAlignment,
}

/// An allocation request: a byte count, an alignment the returned address
/// must honour, whether the memory must be zero-initialized, and an
/// optional offset at which the alignment is to hold instead of at the
/// block start.
#[derive(Clone, Copy, Debug, PartialEq, Eq, Structural)]
pub struct AllocRequest {
    pub size: usize,
    pub align: usize,
    pub zero_init: bool,
    pub offset: usize,
}

impl AllocRequest {
    /// A request is well formed when its alignment is a power of two and,
    /// if an offset is given, the offset falls inside the block.
    pub open spec fn wf(self) -> bool {
        &&& is_pow2(self.align as int)
        &&& self.offset == 0 || self.offset < self.size
    }

    /// Request without zero-initialization, aligned at the block start.
    pub fn new(size: usize, align: usize) -> (r: Self)
        ensures
            r == (AllocRequest { size, align, zero_init: false, offset: 0 }),
    {
        AllocRequest { size, align, zero_init: false, offset: 0 }
    }

    /// Request for zero-initialized memory, aligned at the block start.
    pub fn zeroed(size: usize, align: usize) -> (r: Self)
        ensures
            r == (AllocRequest { size, align, zero_init: true, offset: 0 }),
    {
        AllocRequest { size, align, zero_init: true, offset: 0 }
    }

    /// Runtime check for [`AllocRequest::wf`].
    pub fn check_wf(&self) -> (r: bool)
        ensures
            r == self.wf(),
    {
        is_power_of_two(self.align) && (self.offset == 0 || self.offset < self.size)
    }
}

/// The engine entry points the dispatcher can route a request to.
#[derive(Clone, Copy, Debug, PartialEq, Eq, Structural)]
pub enum EntryPoint {
    /// Plain allocation; the engine's natural alignment suffices.
    Plain,
    /// Plain zero-initialized allocation.
    PlainZeroed,
    /// Over-aligned allocation.
    Aligned,
    /// Over-aligned zero-initialized allocation.
    AlignedZeroed,
    /// Allocation aligned at an interior offset.
    AlignedAt,
    /// Zero-initialized allocation aligned at an interior offset.
    AlignedAtZeroed,
}

/// The fast path applies when the engine's natural block alignment already
/// satisfies the request: the alignment is at most the natural alignment,
/// it does not exceed the size (unless the size is zero), and the
/// alignment is demanded at the block start.
pub open spec fn spec_fast_path(size: usize, align: usize, offset: usize) -> bool {
    &&& align <= NATURAL_ALIGNMENT
    &&& align <= size || size == 0
    &&& offset == 0
}

/// Which entry point a request is routed to. Zero-initialization never
/// changes the alignment path, only the zalloc/malloc flavour.
pub open spec fn spec_select_entry(req: AllocRequest) -> EntryPoint {
    if spec_fast_path(req.size, req.align, req.offset) {
        if req.zero_init {
            EntryPoint::PlainZeroed
        } else {
            EntryPoint::Plain
        }
    } else if req.offset == 0 {
        if req.zero_init {
            EntryPoint::AlignedZeroed
        } else {
            EntryPoint::Aligned
        }
    } else {
        if req.zero_init {
            EntryPoint::AlignedAtZeroed
        } else {
            EntryPoint::AlignedAt
        }
    }
}

/// Select the cheapest correct engine entry point for a request.
pub fn select_entry_point(req: &AllocRequest) -> (r: EntryPoint)
    ensures
        r == spec_select_entry(*req),
{
    let fast = req.align <= NATURAL_ALIGNMENT && (req.align <= req.size || req.size == 0)
        && req.offset == 0;
    if fast {
        if req.zero_init {
            EntryPoint::PlainZeroed
        } else {
            EntryPoint::Plain
        }
    } else if req.offset == 0 {
        if req.zero_init {
            EntryPoint::AlignedZeroed
        } else {
            EntryPoint::Aligned
        }
    } else {
        if req.zero_init {
            EntryPoint::AlignedAtZeroed
        } else {
            EntryPoint::AlignedAt
        }
    }
}

/// Fail fast on an alignment above the platform ceiling; such a request
/// must not reach the engine.
pub fn validate_alignment(align: usize) -> (r: Result<(), AllocError>)
    ensures
        r is Ok <==> align <= ALIGNMENT_CEILING,
        r is Err ==> r->Err_0 == AllocError::UnsupportedAlignment,
{
    if align <= ALIGNMENT_CEILING {
        Ok(())
    } else {
        Err(AllocError::UnsupportedAlignment)
    }
}

/// Multiply an element count by an element size, reporting overflow as an
/// allocation failure instead of clamping.
pub fn checked_request_size(count: usize, size: usize) -> (r: Result<usize, AllocError>)
    ensures
        count * size <= usize::MAX ==> r == Ok::<usize, AllocError>((count * size) as usize),
        count * size > usize::MAX ==> r == Err::<usize, AllocError>(AllocError::Overflow),
{
    if size == 0 {
        Ok(0)
    } else if count <= usize::MAX / size {
        proof {
            vstd::arithmetic::div_mod::lemma_fundamental_div_mod(usize::MAX as int, size as int);
            assert(count * size <= usize::MAX) by (nonlinear_arith)
                requires
                    size >= 1,
                    count <= usize::MAX / size,
                    usize::MAX as int == (size as int) * (usize::MAX as int / size as int) + (
                    usize::MAX as int) % (size as int),
                    (usize::MAX as int) % (size as int) >= 0,
            {}
        }
        Ok(count * size)
    } else {
        proof {
            vstd::arithmetic::div_mod::lemma_fundamental_div_mod(usize::MAX as int, size as int);
            assert(count * size > usize::MAX) by (nonlinear_arith)
                requires
                    size >= 1,
                    count > usize::MAX / size,
                    usize::MAX as int == (size as int) * (usize::MAX as int / size as int) + (
                    usize::MAX as int) % (size as int),
                    (usize::MAX as int) % (size as int) < (size as int),
            {}
        }
        Err(AllocError::Overflow)
    }
}

} // verus!
