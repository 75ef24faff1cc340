//! The options registry's tri-state semantics and the callback
//! registrations with their recorded events.

use mimalloc::diag::DEFERRED_FREE_INTERVAL;
use mimalloc::options::{OPTION_SHOW_ERRORS, OPTION_SHOW_STATS, OPTION_VERBOSE};
use mimalloc::MiMalloc;

#[test]
fn options_tri_state() {
    let mut m = MiMalloc::new();
    let opt = OPTION_VERBOSE;
    m.option_set_if_unset(opt, 5);
    m.option_set_if_unset(opt, 9);
    assert_eq!(m.option_get(opt), 5);

    let opt2 = 17;
    m.option_set(opt2, 5);
    m.option_set(opt2, 9);
    assert_eq!(m.option_get(opt2), 9);
}

#[test]
fn options_default_to_zero_and_set_overrides_if_unset() {
    let mut m = MiMalloc::new();
    assert_eq!(m.option_get(OPTION_SHOW_ERRORS), 0);
    assert!(!m.option_is_enabled(OPTION_SHOW_ERRORS));
    // A plain set always lands, even after a set-if-unset.
    m.option_set_if_unset(OPTION_SHOW_ERRORS, 3);
    m.option_set(OPTION_SHOW_ERRORS, 11);
    assert_eq!(m.option_get(OPTION_SHOW_ERRORS), 11);
}

#[test]
fn boolean_options_restrict_to_zero_and_one() {
    let mut m = MiMalloc::new();
    m.option_set_enabled(OPTION_SHOW_STATS, true);
    assert!(m.option_is_enabled(OPTION_SHOW_STATS));
    assert_eq!(m.option_get(OPTION_SHOW_STATS), 1);
    m.option_set_enabled(OPTION_SHOW_STATS, false);
    assert_eq!(m.option_get(OPTION_SHOW_STATS), 0);
    m.option_set_enabled_if_unset(OPTION_SHOW_STATS, true);
    assert_eq!(m.option_get(OPTION_SHOW_STATS), 0);
    m.option_set_enabled_if_unset(OPTION_VERBOSE, true);
    assert_eq!(m.option_get(OPTION_VERBOSE), 1);
}

#[test]
fn deferred_free_runs_with_increasing_heartbeat() {
    let mut m = MiMalloc::new();
    m.register_deferred_free(9, 1234);
    let n = 3 * DEFERRED_FREE_INTERVAL as usize + 5;
    let mut ptrs = Vec::new();
    for _ in 0..n {
        ptrs.push(m.allocate(8, 1).unwrap());
    }
    assert!(m.diag.deferred_events.len() >= 1);
    assert_eq!(m.diag.deferred_events.len(), 3);
    for (i, ev) in m.diag.deferred_events.iter().enumerate() {
        assert_eq!(ev.heartbeat, i as u64);
        assert!(!ev.force);
        assert_eq!(ev.fun, 9);
        assert_eq!(ev.arg, 1234);
    }
    for (i, ev) in m.diag.deferred_events.iter().enumerate() {
        for (j, later) in m.diag.deferred_events.iter().enumerate() {
            if i < j {
                assert!(ev.heartbeat < later.heartbeat);
            }
        }
    }
    for p in ptrs {
        m.dealloc(p);
    }
}

#[test]
fn registering_null_clears_the_deferred_callback() {
    let mut m = MiMalloc::new();
    m.register_deferred_free(9, 0);
    m.register_deferred_free(0, 0);
    for _ in 0..(4 * DEFERRED_FREE_INTERVAL as usize) {
        m.allocate(8, 1).unwrap();
    }
    assert_eq!(m.diag.deferred_events.len(), 0);
}

#[test]
fn reregistering_replaces_the_deferred_callback() {
    let mut m = MiMalloc::new();
    m.register_deferred_free(9, 1);
    m.register_deferred_free(10, 2);
    for _ in 0..(DEFERRED_FREE_INTERVAL as usize) {
        m.allocate(8, 1).unwrap();
    }
    assert_eq!(m.diag.deferred_events.len(), 1);
    assert_eq!(m.diag.deferred_events[0].fun, 10);
    assert_eq!(m.diag.deferred_events[0].arg, 2);
}

#[test]
fn collect_forces_the_deferred_callback() {
    let mut m = MiMalloc::new();
    m.collect(true);
    assert_eq!(m.diag.deferred_events.len(), 0);
    m.register_deferred_free(3, 0);
    m.collect(true);
    m.collect(false);
    assert_eq!(m.diag.deferred_events.len(), 2);
    assert!(m.diag.deferred_events[0].force);
    assert!(!m.diag.deferred_events[1].force);
    assert!(m.diag.deferred_events[0].heartbeat < m.diag.deferred_events[1].heartbeat);
}

#[test]
fn stats_count_and_print_and_reset() {
    let mut m = MiMalloc::new();
    let p = m.allocate(8, 1).unwrap();
    let q = m.allocate(8, 1).unwrap();
    m.dealloc(p);
    assert_eq!(m.diag.allocation_count, 2);
    assert_eq!(m.diag.free_count, 1);
    m.stats_print();
    assert_eq!(m.diag.output_events.len(), 1);
    assert_eq!(m.diag.output_events[0].fun, 0);
    assert_eq!(m.diag.output_events[0].allocation_count, 2);
    assert_eq!(m.diag.output_events[0].free_count, 1);
    m.register_output(44, 55);
    m.stats_print();
    assert_eq!(m.diag.output_events[1].fun, 44);
    assert_eq!(m.diag.output_events[1].arg, 55);
    m.stats_print_to(7, 8);
    assert_eq!(m.diag.output_events[2].fun, 7);
    m.thread_stats_print_to(9, 10);
    assert_eq!(m.diag.output_events[3].fun, 9);
    m.stats_reset();
    assert_eq!(m.diag.allocation_count, 0);
    assert_eq!(m.diag.free_count, 0);
    m.stats_merge();
    m.thread_init();
    m.thread_done();
    m.dealloc(q);
}

#[test]
fn version_encodes_major_minor_patch() {
    let m = MiMalloc::new();
    assert_eq!(m.version(), 186);
}
