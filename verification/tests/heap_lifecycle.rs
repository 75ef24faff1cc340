//! Heap creation, promotion, deletion, destruction, containment queries
//! and traversal.

use mimalloc::MiMalloc;

#[test]
fn new_heaps_are_fresh_and_isolated() {
    let mut m = MiMalloc::new();
    let h1 = m.heap_new().unwrap();
    let h2 = m.heap_new().unwrap();
    assert_ne!(h1, h2);
    assert_ne!(h1, m.heap_get_backing());
    assert_ne!(h2, m.heap_get_backing());
    assert_eq!(m.heap_get_default(), m.heap_get_backing());
}

#[test]
fn heap_isolation() {
    let mut m = MiMalloc::new();
    let h1 = m.heap_new().unwrap();
    let h2 = m.heap_new().unwrap();
    let p = m.heap_alloc(h1, 64, 16).unwrap();
    assert!(m.heap_contains_block(h1, p));
    assert!(!m.heap_contains_block(h2, p));
    assert!(m.heap_check_owned(h1, p));
    assert!(!m.heap_check_owned(h2, p));
}

#[test]
fn check_owned_is_safe_on_garbage() {
    let mut m = MiMalloc::new();
    let h = m.heap_new().unwrap();
    assert!(!m.heap_check_owned(h, 0));
    assert!(!m.heap_check_owned(h, 0xdead_beef));
    assert!(!m.check_owned(usize::MAX));
    let p = m.heap_alloc(h, 8, 1).unwrap();
    assert!(m.heap_check_owned(h, p));
    assert!(!m.check_owned(p));
}

#[test]
fn set_default_returns_previous_and_transfers() {
    let mut m = MiMalloc::new();
    let h = m.heap_new().unwrap();
    let previous = m.heap_set_default(h);
    assert_eq!(previous, m.heap_get_backing());
    assert_eq!(m.heap_get_default(), h);
    let p = m.allocate(8, 1).unwrap();
    assert!(m.heap_contains_block(h, p));
    let restored = m.heap_set_default(previous);
    assert_eq!(restored, h);
    assert_eq!(m.heap_get_default(), previous);
}

#[test]
fn delete_migrates_blocks_to_backing() {
    let mut m = MiMalloc::new();
    let h = m.heap_new().unwrap();
    let p = m.heap_alloc(h, 128, 16).unwrap();
    m.heap_delete(h);
    let backing = m.heap_get_backing();
    assert!(m.heap_check_owned(backing, p));
    assert_eq!(m.usable_size(p), 128);
    m.dealloc(p);
}

#[test]
fn delete_reverts_default_to_backing() {
    let mut m = MiMalloc::new();
    let backing = m.heap_get_backing();
    let h = m.heap_new().unwrap();
    let previous = m.heap_set_default(h);
    assert_eq!(previous, backing);
    let p = m.allocate(32, 8).unwrap();
    m.heap_delete(h);
    assert_eq!(m.heap_get_default(), previous);
    assert!(m.heap_check_owned(backing, p));
    m.dealloc(p);
}

#[test]
fn destroy_invalidates_blocks_but_not_the_rest() {
    let mut m = MiMalloc::new();
    let h = m.heap_new().unwrap();
    let other = m.heap_new().unwrap();
    let doomed = m.heap_alloc(h, 64, 8).unwrap();
    let survivor = m.heap_alloc(other, 64, 8).unwrap();
    m.heap_destroy(h);
    let backing = m.heap_get_backing();
    assert!(!m.heap_check_owned(backing, doomed));
    assert!(!m.check_owned(doomed));
    assert!(m.heap_check_owned(other, survivor));
    // A fresh heap behaves normally afterwards.
    let fresh = m.heap_new().unwrap();
    let p = m.heap_alloc(fresh, 16, 16).unwrap();
    assert!(m.heap_contains_block(fresh, p));
    m.dealloc(p);
    m.dealloc(survivor);
}

#[test]
fn destroy_reverts_default_to_backing() {
    let mut m = MiMalloc::new();
    let h = m.heap_new().unwrap();
    m.heap_set_default(h);
    m.heap_destroy(h);
    assert_eq!(m.heap_get_default(), m.heap_get_backing());
}

#[test]
fn visit_lists_areas_and_blocks_in_order() {
    let mut m = MiMalloc::new();
    let h = m.heap_new().unwrap();
    let other = m.heap_new().unwrap();
    let p1 = m.heap_alloc(h, 10, 1).unwrap();
    let _elsewhere = m.heap_alloc(other, 10, 1).unwrap();
    let p2 = m.heap_alloc(h, 50, 1).unwrap();

    let areas_only = m.heap_visit_blocks(h, false);
    assert_eq!(areas_only.len(), 2);
    assert_eq!(areas_only[0].block, 0);
    assert_eq!(areas_only[0].area_start, p1);
    assert_eq!(areas_only[1].block, 0);
    assert_eq!(areas_only[1].area_start, p2);

    let with_blocks = m.heap_visit_blocks(h, true);
    assert_eq!(with_blocks.len(), 4);
    assert_eq!(with_blocks[0].block, 0);
    assert_eq!(with_blocks[1].block, p1);
    assert_eq!(with_blocks[1].block_size, m.usable_size(p1));
    assert_eq!(with_blocks[2].block, 0);
    assert_eq!(with_blocks[3].block, p2);
    assert_eq!(with_blocks[0].area_used, 10);
    assert_eq!(with_blocks[3].area_used, 50);
}

#[test]
fn heap_realloc_can_move_between_heaps() {
    let mut m = MiMalloc::new();
    let h1 = m.heap_new().unwrap();
    let h2 = m.heap_new().unwrap();
    let p = m.heap_alloc(h1, 32, 8).unwrap();
    for i in 0..32 {
        m.store(p, i, i as u8);
    }
    // Growth beyond the usable capacity moves the block into the target heap.
    let grown = m.heap_realloc(h2, p, 1 << 12).unwrap();
    assert_ne!(grown, p);
    assert!(m.heap_check_owned(h2, grown));
    assert!(!m.heap_check_owned(h1, grown));
    for i in 0..32 {
        assert_eq!(m.load(grown, i), i as u8);
    }
    m.dealloc(grown);
}
