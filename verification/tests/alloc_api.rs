//! Allocation, free, resize and usable-size behaviour of the front end.

use mimalloc::dispatch::{AllocError, AllocRequest};
use mimalloc::MiMalloc;

#[test]
fn it_frees_allocated_memory() {
    let mut alloc = MiMalloc::new();
    let ptr = alloc.allocate(8, 8).unwrap();
    alloc.dealloc(ptr);
}

#[test]
fn it_frees_allocated_big_memory() {
    let mut alloc = MiMalloc::new();
    let ptr = alloc.allocate(1 << 20, 32).unwrap();
    alloc.dealloc(ptr);
}

#[test]
fn it_frees_zero_allocated_memory() {
    let mut alloc = MiMalloc::new();
    let ptr = alloc.alloc_zeroed(8, 8).unwrap();
    alloc.dealloc(ptr);
}

#[test]
fn it_frees_zero_allocated_big_memory() {
    let mut alloc = MiMalloc::new();
    let ptr = alloc.alloc_zeroed(1 << 20, 32).unwrap();
    alloc.dealloc(ptr);
}

#[test]
fn it_frees_reallocated_memory() {
    let mut alloc = MiMalloc::new();
    let ptr = alloc.allocate(8, 8).unwrap();
    let ptr = alloc.realloc(ptr, 16).unwrap();
    alloc.dealloc(ptr);
}

#[test]
fn it_frees_reallocated_big_memory() {
    let mut alloc = MiMalloc::new();
    let ptr = alloc.allocate(1 << 20, 32).unwrap();
    let ptr = alloc.realloc(ptr, 2 << 20).unwrap();
    alloc.dealloc(ptr);
}

#[test]
fn it_frees_memory_malloc() {
    let mut alloc = MiMalloc::new();
    let ptr = alloc.allocate(8, 8).unwrap();
    alloc.free(ptr);
}

#[test]
fn it_frees_memory_zalloc() {
    let mut alloc = MiMalloc::new();
    let ptr = alloc.alloc_zeroed(8, 8).unwrap();
    alloc.free(ptr);
}

#[test]
fn it_frees_memory_realloc() {
    let mut alloc = MiMalloc::new();
    let ptr = alloc.allocate(8, 8).unwrap();
    let ptr = alloc.realloc(ptr, 8).unwrap();
    alloc.free(ptr);
}

#[test]
fn it_calculates_usable_size() {
    let mut alloc = MiMalloc::new();
    let ptr = alloc.allocate(32, 1).unwrap();
    let usable_size = alloc.usable_size(ptr);
    assert!(
        usable_size >= 32,
        "usable_size should at least equal to the allocated size"
    );
}

#[test]
fn it_gets_version() {
    let version = MiMalloc::new().version();
    assert!(version != 0);
}

#[test]
fn it_checks_usable_size() {
    let mut alloc = MiMalloc::new();
    let ptr = alloc.allocate(8, 8).unwrap();
    let usable_size = alloc.usable_size(ptr);
    alloc.dealloc(ptr);
    assert!(usable_size >= 8);
}

#[test]
fn round_trip_usable_size_and_alignment() {
    let mut m = MiMalloc::new();
    for &(size, align) in &[
        (0usize, 1usize),
        (1, 1),
        (1, 64),
        (7, 2),
        (8, 8),
        (15, 16),
        (100, 4),
        (1000, 256),
        (4096, 4096),
        (1 << 20, 32),
    ] {
        let p = m.allocate(size, align).unwrap();
        assert!(m.usable_size(p) >= size);
        assert_eq!(p % align, 0);
        m.dealloc(p);
    }
}

#[test]
fn free_null_is_a_no_op() {
    let mut m = MiMalloc::new();
    let p = m.allocate(16, 16).unwrap();
    let blocks_before = m.blocks.len();
    let frees_before = m.diag.free_count;
    m.dealloc(0);
    assert_eq!(m.blocks.len(), blocks_before);
    assert_eq!(m.diag.free_count, frees_before);
    m.dealloc(p);
    assert_eq!(m.blocks.len(), blocks_before - 1);
}

#[test]
fn resize_preserves_alignment() {
    let mut m = MiMalloc::new();
    let mut p = m.allocate(64, 32).unwrap();
    assert_eq!(p % 32, 0);
    for &new_size in &[0usize, 1, 64, 100, 1 << 16, 5] {
        p = m.realloc(p, new_size).unwrap();
        assert_eq!(p % 32, 0);
    }
    m.dealloc(p);
}

#[test]
fn realloc_of_null_allocates() {
    let mut m = MiMalloc::new();
    let p = m.realloc(0, 48).unwrap();
    assert!(m.usable_size(p) >= 48);
    m.dealloc(p);
}

#[test]
fn good_size_rounds_to_granules() {
    assert_eq!(mimalloc::align::good_size(0), 16);
    assert_eq!(mimalloc::align::good_size(1), 16);
    assert_eq!(mimalloc::align::good_size(16), 16);
    assert_eq!(mimalloc::align::good_size(17), 32);
    assert_eq!(mimalloc::align::good_size(100), 112);
}

#[test]
fn usable_size_matches_good_size() {
    let mut m = MiMalloc::new();
    for &size in &[0usize, 1, 8, 16, 17, 100, 4096] {
        let p = m.allocate(size, 1).unwrap();
        assert_eq!(m.usable_size(p), mimalloc::align::good_size(size));
        m.dealloc(p);
    }
}

#[test]
fn calloc_zeroes_and_checks_overflow() {
    let mut m = MiMalloc::new();
    let p = m.calloc(3, 40).unwrap();
    assert!(m.usable_size(p) >= 120);
    for i in 0..120 {
        assert_eq!(m.load(p, i), 0);
    }
    m.dealloc(p);
    assert_eq!(m.calloc(usize::MAX, 2), Err(AllocError::Overflow));
    assert_eq!(m.mallocn(usize::MAX / 2 + 1, 4), Err(AllocError::Overflow));
}

#[test]
fn unsupported_alignment_fails_fast() {
    let mut m = MiMalloc::new();
    let huge_align = 1usize << 32;
    assert_eq!(
        m.allocate(16, huge_align),
        Err(AllocError::UnsupportedAlignment)
    );
    // Fail-fast means the engine was never reached: no error callback ran.
    m.register_error(5, 0);
    assert_eq!(
        m.allocate(16, huge_align),
        Err(AllocError::UnsupportedAlignment)
    );
    assert_eq!(m.diag.error_events.len(), 0);
}

#[test]
fn out_of_memory_reports_through_error_callback() {
    let mut m = MiMalloc::new();
    m.register_error(5, 77);
    let r = m.allocate(usize::MAX - 8, 1);
    assert_eq!(r, Err(AllocError::OutOfMemory));
    assert_eq!(m.diag.error_events.len(), 1);
    assert_eq!(m.diag.error_events[0].code, mimalloc::diag::ERR_ENOMEM);
    assert_eq!(m.diag.error_events[0].fun, 5);
    assert_eq!(m.diag.error_events[0].arg, 77);
    // Overflow reports its own code.
    let r = m.calloc(usize::MAX, 2);
    assert_eq!(r, Err(AllocError::Overflow));
    assert_eq!(m.diag.error_events.len(), 2);
    assert_eq!(m.diag.error_events[1].code, mimalloc::diag::ERR_EOVERFLOW);
}

#[test]
fn offset_aligned_requests_hold_at_the_offset() {
    let mut m = MiMalloc::new();
    let req = AllocRequest {
        size: 100,
        align: 64,
        zero_init: false,
        offset: 24,
    };
    let h = m.heap_get_default();
    let p = m.dispatch_allocate(req, h).unwrap();
    assert_eq!((p + 24) % 64, 0);
    m.dealloc(p);
}

#[test]
fn aligned_resize_restates_the_original_layout() {
    let mut m = MiMalloc::new();
    let p = m.allocate(64, 128).unwrap();
    let p = m.realloc_aligned(p, 4096, 128).unwrap();
    assert_eq!(p % 128, 0);
    assert!(m.usable_size(p) >= 4096);
    m.dealloc(p);

    let req = AllocRequest {
        size: 100,
        align: 64,
        zero_init: false,
        offset: 24,
    };
    let h = m.heap_get_default();
    let q = m.dispatch_allocate(req, h).unwrap();
    let q = m.realloc_aligned_at(q, 5000, 64, 24).unwrap();
    assert_eq!((q + 24) % 64, 0);
    m.dealloc(q);
}

#[test]
fn shrinking_resize_stays_in_place() {
    let mut m = MiMalloc::new();
    let p = m.allocate(1024, 8).unwrap();
    for i in 0..100 {
        m.store(p, i, 7);
    }
    let q = m.realloc(p, 100).unwrap();
    assert_eq!(q, p);
    for i in 0..100 {
        assert_eq!(m.load(q, i), 7);
    }
    // Growing back within the unchanged usable capacity also stays put.
    let r = m.realloc(q, m.usable_size(q)).unwrap();
    assert_eq!(r, p);
    m.dealloc(r);
}

#[test]
fn failed_resize_leaves_the_block_intact() {
    let mut m = MiMalloc::new();
    let p = m.allocate(64, 8).unwrap();
    for i in 0..64 {
        m.store(p, i, 9);
    }
    let r = m.realloc(p, usize::MAX - 8);
    assert_eq!(r, Err(AllocError::OutOfMemory));
    assert!(m.check_owned(p));
    assert_eq!(m.usable_size(p), 64);
    for i in 0..64 {
        assert_eq!(m.load(p, i), 9);
    }
    m.dealloc(p);
}

#[test]
fn mallocn_multiplies_without_zeroing_promise() {
    let mut m = MiMalloc::new();
    let p = m.mallocn(7, 9).unwrap();
    assert!(m.usable_size(p) >= 63);
    m.dealloc(p);
}

#[test]
fn zero_init_only_changes_the_entry_point() {
    let mut m = MiMalloc::new();
    let p = m.alloc_zeroed(40, 64).unwrap();
    assert_eq!(p % 64, 0);
    for i in 0..40 {
        assert_eq!(m.load(p, i), 0);
    }
    m.dealloc(p);
}
