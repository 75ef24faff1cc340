//! End-to-end scenarios across allocation, heap lifecycle and callbacks.

use mimalloc::diag::DEFERRED_FREE_INTERVAL;
use mimalloc::MiMalloc;

#[test]
fn megabyte_zeroed_then_grown_preserves_contents() {
    let mut m = MiMalloc::new();
    let one_mb = 1usize << 20;
    let two_mb = 2usize << 20;

    let p = m.alloc_zeroed(one_mb, 32).unwrap();
    assert_eq!(p % 32, 0);
    assert!(m.usable_size(p) >= one_mb);
    for i in 0..one_mb {
        assert_eq!(m.load(p, i), 0);
    }

    // Leave a recognizable pattern before growing.
    for i in (0..one_mb).step_by(4096) {
        m.store(p, i, (i / 4096) as u8);
    }

    let q = m.realloc(p, two_mb).unwrap();
    assert_eq!(q % 32, 0);
    assert!(m.usable_size(q) >= two_mb);
    for i in 0..one_mb {
        let expected = if i % 4096 == 0 { (i / 4096) as u8 } else { 0 };
        assert_eq!(m.load(q, i), expected);
    }
    m.dealloc(q);
}

#[test]
fn default_heap_round_trip_with_delete() {
    let mut m = MiMalloc::new();
    let h = m.heap_new().unwrap();
    let previous = m.heap_set_default(h);
    let p = m.allocate(256, 16).unwrap();
    assert!(m.heap_contains_block(h, p));
    m.heap_delete(h);
    assert_eq!(m.heap_get_default(), previous);
    // The block survived the deletion and is still freeable.
    assert!(m.check_owned(p));
    assert_eq!(m.usable_size(p), 256);
    m.dealloc(p);
    assert!(!m.check_owned(p));
}

#[test]
fn deferred_free_fires_within_the_documented_interval() {
    let mut m = MiMalloc::new();
    m.register_deferred_free(1, 0);
    let mut fired_after = None;
    for i in 0..(DEFERRED_FREE_INTERVAL as usize + 1) {
        m.allocate(1, 1).unwrap();
        if m.diag.deferred_events.len() > 0 && fired_after.is_none() {
            fired_after = Some(i + 1);
        }
    }
    let fired_after = fired_after.expect("the callback must fire within the interval");
    assert_eq!(fired_after, DEFERRED_FREE_INTERVAL as usize);
    assert_eq!(m.diag.deferred_events[0].heartbeat, 0);
}

#[test]
fn cross_heap_session() {
    let mut m = MiMalloc::new();
    let scratch = m.heap_new().unwrap();
    let keep = m.heap_new().unwrap();

    let mut scratch_ptrs = Vec::new();
    for i in 0..16 {
        scratch_ptrs.push(m.heap_alloc(scratch, 64 + i, 8).unwrap());
    }
    let kept = m.heap_alloc(keep, 512, 64).unwrap();
    for i in 0..512 {
        m.store(kept, i, 0xa5);
    }

    // Bulk-discard the scratch space; the kept block is untouched.
    m.heap_destroy(scratch);
    for p in &scratch_ptrs {
        assert!(!m.check_owned(*p));
        assert!(!m.heap_check_owned(keep, *p));
    }
    assert!(m.heap_check_owned(keep, kept));
    for i in 0..512 {
        assert_eq!(m.load(kept, i), 0xa5);
    }

    // Migrate the kept block to the backing heap and free it from there.
    m.heap_delete(keep);
    assert!(m.heap_check_owned(m.heap_get_backing(), kept));
    m.dealloc(kept);
}
