//! The commitment manager: startup, batched commits, crash recovery,
//! pausing writers.

use verifiable_memory_example::digest::Digest;
use verifiable_memory_example::root_manager::RootManager;

fn d(n: u8) -> Digest {
    Digest::from_bytes(vec![n; 32]).unwrap()
}

#[test]
fn cold_start_follows_the_anchor() {
    let (m, diverged) = RootManager::new(d(5), None, 10);
    assert!(!diverged);
    assert!(m.get_temporary_root() == d(5));
    assert!(m.get_main_root() == d(5));
}

#[test]
fn warm_start_keeps_the_persisted_root() {
    // The trusted-state file holds a root the anchor has not seen yet: the
    // file's root wins and the divergence is reported.
    let (m, diverged) = RootManager::new(d(5), Some(d(6)), 10);
    assert!(diverged);
    assert!(m.get_temporary_root() == d(6));
    assert!(m.get_main_root() == d(5));
}

#[test]
fn warm_start_with_matching_roots_reports_no_divergence() {
    let (m, diverged) = RootManager::new(d(5), Some(d(5)), 10);
    assert!(!diverged);
    assert!(m.get_temporary_root() == d(5));
}

#[test]
fn threshold_one_commits_every_write() {
    let (mut m, _) = RootManager::new(Digest::zero(), None, 1);
    m.record_persist(&d(1));
    assert!(m.apply_advance(&d(1)));
    m.record_persist(&d(2));
    assert!(m.apply_advance(&d(2)));
}

#[test]
fn threshold_three_delays_the_commit() {
    let (mut m, _) = RootManager::new(Digest::zero(), None, 3);
    assert!(!m.update_temporary_root(&d(1)));
    assert!(!m.should_commit(0));
    assert!(!m.update_temporary_root(&d(2)));
    assert!(!m.should_commit(0));
    assert!(m.update_temporary_root(&d(3)));
    assert!(m.should_commit(0));
    assert!(m.get_temporary_root() == d(3));
    // The committer publishes and the anchor catches up.
    m.begin_commit();
    m.finish_commit(true);
    assert!(m.get_main_root() == d(3));
    assert!(!m.should_commit(3));
}

#[test]
fn writers_pause_while_a_commit_runs() {
    let (mut m, _) = RootManager::new(Digest::zero(), None, 1);
    assert!(m.can_advance());
    m.begin_commit();
    assert!(!m.can_advance());
    m.finish_commit(true);
    assert!(m.can_advance());
}

#[test]
fn failed_commit_leaves_the_anchor_behind() {
    let (mut m, _) = RootManager::new(Digest::zero(), None, 1);
    m.update_temporary_root(&d(1));
    m.begin_commit();
    m.finish_commit(false);
    assert!(m.get_main_root() == Digest::zero());
    assert!(m.get_temporary_root() == d(1));
    assert!(m.needs_final_commit());
}

#[test]
fn crash_after_persist_recovers_the_persisted_root() {
    // A write persisted d(7) and crashed before (or after) the in-memory
    // root moved; the anchor still holds the old root. Restart recovers the
    // persisted root.
    let (mut m, _) = RootManager::new(Digest::zero(), None, 10);
    m.record_persist(&d(7));
    let (restarted, diverged) = RootManager::new(Digest::zero(), Some(d(7)), 10);
    assert!(diverged);
    assert!(restarted.get_temporary_root() == d(7));
    let _ = m;
}

#[test]
fn force_set_aligns_every_root() {
    let (mut m, _) = RootManager::new(d(1), Some(d(2)), 3);
    m.update_temporary_root(&d(3));
    m.force_set_roots_and_commit(&d(9), true);
    assert!(m.get_temporary_root() == d(9));
    assert!(m.get_main_root() == d(9));
    assert!(!m.needs_final_commit());
    assert!(m.can_advance());
}

#[test]
fn force_set_with_anchor_failure_keeps_the_old_anchor() {
    let (mut m, _) = RootManager::new(d(1), None, 3);
    m.force_set_roots_and_commit(&d(9), false);
    assert!(m.get_temporary_root() == d(9));
    assert!(m.get_main_root() == d(1));
    assert!(m.can_advance());
}

#[test]
fn reset_roots_restarts_batching() {
    let (mut m, _) = RootManager::new(d(1), None, 2);
    m.update_temporary_root(&d(2));
    m.reset_roots(&Digest::zero());
    assert!(m.get_temporary_root() == Digest::zero());
    assert!(m.get_main_root() == Digest::zero());
    assert!(!m.should_commit(0));
}

#[test]
fn rebuild_realigns_every_root() {
    // A schema change invalidates the old commitment: the tree is rebuilt
    // from the authoritative rows and both roots are forced to the rebuilt
    // root.
    let pairs = vec![
        (d(11), d(21)),
        (d(12), d(22)),
        (d(13), d(23)),
        (d(14), d(24)),
        (d(15), d(25)),
    ];
    let (_, new_root, leaf_count) = verifiable_memory_example::engine::rebuild_smt(&pairs);
    assert_eq!(leaf_count, 5);

    let (mut m, _) = RootManager::new(d(1), Some(d(2)), 3);
    m.force_set_roots_and_commit(&new_root, true);
    assert!(m.get_temporary_root() == new_root);
    assert!(m.get_main_root() == new_root);
    assert!(!m.needs_final_commit());
}
