//! Alignment arithmetic: powers of two, rounding an address up to an
//! alignment boundary, and the size-class rounding (`good_size`) that the
//! engine model applies to every request.

use vstd::prelude::*;

verus! {

use vstd::arithmetic::div_mod::{lemma_fundamental_div_mod, lemma_mod_multiples_basic};

/// Natural alignment of the engine's plain allocation entry points: every
/// block they return is aligned to this many bytes, so any request whose
/// alignment divides it can take the fast path.
pub const NATURAL_ALIGNMENT: usize = 16;

/// Whether `n` is a power of two.
pub open spec fn is_pow2(n: int) -> bool
    decreases n,
{
    if n <= 0 {
        false
    } else if n == 1 {
        true
    } else {
        n % 2 == 0 && is_pow2(n / 2)
    }
}

/// Runtime check for [`is_pow2`].
pub fn is_power_of_two(n: usize) -> (r: bool)
    ensures
        r == is_pow2(n as int),
{
    if n == 0 {
        return false;
    }
    let mut m: usize = n;
    while m > 1
        invariant
            m >= 1,
            is_pow2(n as int) == is_pow2(m as int),
        decreases m,
    {
        if m % 2 == 1 {
            return false;
        }
        m = m / 2;
    }
    true
}

/// The natural alignment is itself a power of two.
pub proof fn lemma_natural_alignment_pow2()
    ensures
        is_pow2(NATURAL_ALIGNMENT as int),
{
    assert(is_pow2(1));
    assert(is_pow2(2));
    assert(is_pow2(4));
    assert(is_pow2(8));
    assert(is_pow2(16));
}

/// A power of two strictly below another power of two is at most half of it.
proof fn lemma_pow2_double_bound(a: int, b: int)
    requires
        is_pow2(a),
        is_pow2(b),
        a < b,
    ensures
        2 * a <= b,
    decreases a,
{
    if a == 1 {
        assert(b >= 2);
    } else {
        lemma_fundamental_div_mod(a, 2);
        lemma_fundamental_div_mod(b, 2);
        lemma_pow2_double_bound(a / 2, b / 2);
    }
}

/// A smaller power of two divides a larger one.
pub proof fn lemma_pow2_divides(a: int, b: int)
    requires
        is_pow2(a),
        is_pow2(b),
        a <= b,
    ensures
        b % a == 0,
    decreases b,
{
    if a == b {
        lemma_mod_multiples_basic(1, a);
        assert(b == 1 * a);
    } else {
        lemma_pow2_double_bound(a, b);
        lemma_fundamental_div_mod(b, 2);
        lemma_pow2_divides(a, b / 2);
        let k = (b / 2) / a;
        lemma_fundamental_div_mod(b / 2, a);
        assert(b == (2 * k) * a) by (nonlinear_arith)
            requires
                b == 2 * (b / 2),
                b / 2 == a * k,
        {}
        lemma_mod_multiples_basic(2 * k, a);
    }
}

/// A value that is a multiple of `b` is a multiple of any divisor of `b`.
pub proof fn lemma_mod_divides_transfer(x: int, a: int, b: int)
    requires
        0 < a,
        0 < b,
        x % b == 0,
        b % a == 0,
    ensures
        x % a == 0,
{
    let q = x / b;
    let r = b / a;
    lemma_fundamental_div_mod(x, b);
    lemma_fundamental_div_mod(b, a);
    assert(x == (q * r) * a) by (nonlinear_arith)
        requires
            x == b * q,
            b == a * r,
    {}
    lemma_mod_multiples_basic(q * r, a);
}

/// An address aligned to a power of two `b` is aligned to every smaller
/// power of two `a`. This is the fact that lets the fast path and resize
/// honour a request's alignment: the engine aligns to `b`, the request
/// asked for `a <= b`.
pub proof fn lemma_aligned_to_divisor(addr: int, a: int, b: int)
    requires
        is_pow2(a),
        is_pow2(b),
        a <= b,
        addr % b == 0,
    ensures
        addr % a == 0,
{
    lemma_pow2_divides(a, b);
    lemma_mod_divides_transfer(addr, a, b);
}

/// `x` rounded up to the next multiple of `align`.
pub open spec fn spec_align_up(x: int, align: int) -> int
    recommends
        align >= 1,
{
    if x % align == 0 {
        x
    } else {
        x + align - x % align
    }
}

/// The rounded value is a multiple of the alignment and overshoots by less
/// than one alignment unit.
pub proof fn lemma_align_up_props(x: int, align: int)
    requires
        x >= 0,
        align >= 1,
    ensures
        spec_align_up(x, align) % align == 0,
        x <= spec_align_up(x, align) < x + align,
{
    lemma_fundamental_div_mod(x, align);
    if x % align != 0 {
        let q = x / align;
        assert(spec_align_up(x, align) == (q + 1) * align) by (nonlinear_arith)
            requires
                x == align * q + x % align,
                spec_align_up(x, align) == x + align - x % align,
        {}
        lemma_mod_multiples_basic(q + 1, align);
    }
}

/// Round `x` up to the next multiple of `align`.
pub fn align_up(x: usize, align: usize) -> (r: usize)
    requires
        align >= 1,
        x + align - 1 <= usize::MAX,
    ensures
        r == spec_align_up(x as int, align as int),
        r as int % align as int == 0,
        x <= r,
        r < x + align,
{
    proof {
        lemma_align_up_props(x as int, align as int);
    }
    let rem: usize = x % align;
    if rem == 0 {
        x
    } else {
        x + (align - rem)
    }
}

/// The usable size that a request of `size` bytes rounds up to: the model
/// engine carves blocks in multiples of the natural alignment, with a
/// minimum of one granule, and leaves a size it cannot round (one within a
/// granule of the address-space limit, which no allocation can satisfy
/// anyway) as it is.
pub open spec fn spec_good_size(size: usize) -> usize {
    if size == 0 {
        NATURAL_ALIGNMENT
    } else if size + NATURAL_ALIGNMENT - 1 <= usize::MAX {
        spec_align_up(size as int, NATURAL_ALIGNMENT as int) as usize
    } else {
        size
    }
}

/// A block's usable size covers the requested size and is never zero.
pub proof fn lemma_good_size_bounds(size: usize)
    ensures
        spec_good_size(size) >= size,
        spec_good_size(size) >= 1,
{
    if size != 0 && size + NATURAL_ALIGNMENT - 1 <= usize::MAX {
        lemma_align_up_props(size as int, NATURAL_ALIGNMENT as int);
    }
}

/// Return the usable size that a request of `size` bytes would be rounded
/// up to, without allocating.
pub fn good_size(size: usize) -> (r: usize)
    ensures
        r == spec_good_size(size),
        r >= size,
        r >= 1,
{
    proof {
        lemma_good_size_bounds(size);
    }
    if size == 0 {
        NATURAL_ALIGNMENT
    } else if size <= usize::MAX - (NATURAL_ALIGNMENT - 1) {
        align_up(size, NATURAL_ALIGNMENT)
    } else {
        size
    }
}

} // verus!
