//! The dual-root commitment manager.
//!
//! The manager owns the fast in-memory `temporary_root`, the slow
//! `main_root` last published to the external anchor, and a model of the
//! trusted-state file. Every state change is a pure transition here; the
//! caller performs the file write and the anchor call around the matching
//! transition, holding the manager exclusively for the whole critical
//! section. A writer advances the persisted root first and the in-memory
//! root second, so a crash between the two steps loses nothing.

use vstd::prelude::*;
use crate::digest::Digest;

verus! {

/// The commitment state: both roots, the trusted-state file's content, the
/// write counter, the batch threshold, and the commit flag.
pub struct RootManager {
    /// The root last published to the external anchor.
    pub main_root: Digest,
    /// The in-memory root, advanced on every successful write.
    pub temporary_root: Digest,
    /// The root the trusted-state file holds.
    pub persisted_root: Digest,
    /// Successful writes since startup or forced alignment.
    pub update_counter: u64,
    /// How many writes between anchor commits; at least 1.
    pub batch_commit_size: u64,
    /// True while an anchor commit is under way; writers pause.
    pub commit_in_progress: bool,
}

/// The temporary root a restart recovers: the trusted-state file's root
/// when the file exists, else the anchor's.
pub open spec fn startup_temp_root(anchor_root: Seq<u8>, file_root: Option<Seq<u8>>) -> Seq<u8> {
    match file_root {
        Option::Some(f) => if f != anchor_root {
            f
        } else {
            anchor_root
        },
        Option::None => anchor_root,
    }
}

impl RootManager {
    /// The manager is well formed: its threshold is positive and its
    /// digests hold 32 bytes.
    pub open spec fn wf(&self) -> bool {
        &&& self.batch_commit_size >= 1
        &&& self.main_root.wf()
        &&& self.temporary_root.wf()
        &&& self.persisted_root.wf()
    }

    /// Startup: the anchor's root becomes `main_root`; the trusted-state
    /// file's root, where one exists
    /// and differs from the anchor, is kept as `temporary_root` — a pending
    /// batch has not been anchored yet — and the divergence is reported.
    pub fn new(anchor_root: Digest, file_root: Option<Digest>, batch_commit_size: u64) -> (r: (
        RootManager,
        bool,
    ))
        requires
            anchor_root.wf(),
            batch_commit_size >= 1,
            file_root is Some ==> file_root.unwrap().wf(),
        ensures
            r.0.wf(),
            r.0.main_root@ == anchor_root@,
            r.0.temporary_root@ == startup_temp_root(
                anchor_root@,
                match file_root {
                    Option::Some(f) => Option::Some(f@),
                    Option::None => Option::None,
                },
            ),
            r.0.persisted_root@ == r.0.temporary_root@,
            r.0.update_counter == 0,
            r.0.batch_commit_size == batch_commit_size,
            !r.0.commit_in_progress,
            r.1 == (r.0.temporary_root@ != anchor_root@),
    {
        let mut temporary_root = anchor_root.clone();
        let mut diverged = false;
        match file_root {
            Option::Some(f) => {
                if !(f == temporary_root) {
                    diverged = true;
                    temporary_root = f;
                }
            },
            Option::None => {},
        }
        let persisted_root = temporary_root.clone();
        (
            RootManager {
                main_root: anchor_root,
                temporary_root,
                persisted_root,
                update_counter: 0,
                batch_commit_size,
                commit_in_progress: false,
            },
            diverged,
        )
    }

    /// Crash consistency: once the trusted-state file holds a root, a
    /// restart recovers exactly that root as `temporary_root`, whether or
    /// not the in-memory root had caught up and whatever the anchor holds.
    pub proof fn lemma_crash_recovery(file_root: Seq<u8>, anchor_root: Seq<u8>)
        ensures
            startup_temp_root(anchor_root, Option::Some(file_root)) == file_root,
    {
    }

    /// True when a writer may advance: no anchor commit is under way. A
    /// writer finding this false waits until the flag clears.
    pub fn can_advance(&self) -> (r: bool)
        ensures
            r == !self.commit_in_progress,
    {
        !self.commit_in_progress
    }

    /// Step one of a write advance: the trusted-state file now holds the
    /// new root. The caller calls this after its file write succeeded and
    /// before the in-memory root moves.
    pub fn record_persist(&mut self, new_root: &Digest)
        requires
            old(self).wf(),
            new_root.wf(),
        ensures
            final(self).wf(),
            final(self).persisted_root@ == new_root@,
            final(self).main_root == old(self).main_root,
            final(self).temporary_root == old(self).temporary_root,
            final(self).update_counter == old(self).update_counter,
            final(self).batch_commit_size == old(self).batch_commit_size,
            final(self).commit_in_progress == old(self).commit_in_progress,
    {
        self.persisted_root = new_root.clone();
    }

    /// Step two of a write advance: the in-memory root catches up with the
    /// persisted one and the counter moves. Returns whether this write
    /// reaches the batch threshold and so triggers an anchor commit: with a
    /// threshold of 1 every write does, with a threshold of B only every
    /// B-th write does.
    pub fn apply_advance(&mut self, new_root: &Digest) -> (triggers_commit: bool)
        requires
            old(self).wf(),
            new_root.wf(),
            old(self).persisted_root@ == new_root@,
            !old(self).commit_in_progress,
            old(self).update_counter < u64::MAX,
        ensures
            final(self).wf(),
            final(self).temporary_root@ == new_root@,
            final(self).persisted_root@ == new_root@,
            final(self).main_root == old(self).main_root,
            final(self).update_counter == old(self).update_counter + 1,
            final(self).batch_commit_size == old(self).batch_commit_size,
            !final(self).commit_in_progress,
            triggers_commit == (final(self).update_counter % final(self).batch_commit_size == 0),
    {
        self.temporary_root = new_root.clone();
        self.update_counter = self.update_counter + 1;
        self.update_counter % self.batch_commit_size == 0
    }

    /// One write advance: persist first, then move the in-memory root.
    /// The caller must have written the trusted-state file already.
    pub fn update_temporary_root(&mut self, new_root: &Digest) -> (triggers_commit: bool)
        requires
            old(self).wf(),
            new_root.wf(),
            !old(self).commit_in_progress,
            old(self).update_counter < u64::MAX,
        ensures
            final(self).wf(),
            final(self).temporary_root@ == new_root@,
            final(self).persisted_root@ == new_root@,
            final(self).main_root == old(self).main_root,
            final(self).update_counter == old(self).update_counter + 1,
            final(self).batch_commit_size == old(self).batch_commit_size,
            !final(self).commit_in_progress,
            triggers_commit == (final(self).update_counter % final(self).batch_commit_size == 0),
    {
        self.record_persist(new_root);
        self.apply_advance(new_root)
    }

    /// The current in-memory root.
    pub fn get_temporary_root(&self) -> (r: Digest)
        ensures
            r@ == self.temporary_root@,
    {
        self.temporary_root.clone()
    }

    /// The root last published to the anchor.
    pub fn get_main_root(&self) -> (r: Digest)
        ensures
            r@ == self.main_root@,
    {
        self.main_root.clone()
    }

    /// Whether the background committer should publish now: the counter
    /// stands on a fresh batch boundary and the roots differ.
    pub fn should_commit(&self, last_committed_count: u64) -> (r: bool)
        requires
            self.wf(),
        ensures
            r == (self.update_counter > 0 && self.update_counter % self.batch_commit_size == 0
                && self.update_counter > last_committed_count && self.temporary_root@
                != self.main_root@),
    {
        self.update_counter > 0 && self.update_counter % self.batch_commit_size == 0
            && self.update_counter > last_committed_count && !(self.temporary_root
            == self.main_root)
    }

    /// Whether a final synchronous commit is owed at shutdown.
    pub fn needs_final_commit(&self) -> (r: bool)
        ensures
            r == (self.temporary_root@ != self.main_root@),
    {
        !(self.temporary_root == self.main_root)
    }

    /// Pauses writers for the duration of an anchor commit.
    pub fn begin_commit(&mut self)
        requires
            old(self).wf(),
            !old(self).commit_in_progress,
        ensures
            final(self).wf(),
            final(self).commit_in_progress,
            final(self).main_root == old(self).main_root,
            final(self).temporary_root == old(self).temporary_root,
            final(self).persisted_root == old(self).persisted_root,
            final(self).update_counter == old(self).update_counter,
            final(self).batch_commit_size == old(self).batch_commit_size,
    {
        self.commit_in_progress = true;
    }

    /// Ends an anchor commit. On success the anchor now holds the root that
    /// was in memory when the commit began, so `main_root` catches up; on
    /// failure it stays behind and the next boundary retries. Writers
    /// resume either way.
    pub fn finish_commit(&mut self, success: bool)
        requires
            old(self).wf(),
            old(self).commit_in_progress,
        ensures
            final(self).wf(),
            !final(self).commit_in_progress,
            final(self).main_root@ == if success {
                old(self).temporary_root@
            } else {
                old(self).main_root@
            },
            final(self).temporary_root == old(self).temporary_root,
            final(self).persisted_root == old(self).persisted_root,
            final(self).update_counter == old(self).update_counter,
            final(self).batch_commit_size == old(self).batch_commit_size,
    {
        if success {
            self.main_root = self.temporary_root.clone();
        }
        self.commit_in_progress = false;
    }

    /// Forced alignment after a rebuild: the file, the in-memory root
    /// and — when the anchor accepted the write — the anchor root all move
    /// to `new_root`, and batching restarts. On anchor failure the caller
    /// surfaces the error; writers resume either way.
    pub fn force_set_roots_and_commit(&mut self, new_root: &Digest, anchor_ok: bool)
        requires
            old(self).wf(),
            new_root.wf(),
        ensures
            final(self).wf(),
            final(self).persisted_root@ == new_root@,
            final(self).temporary_root@ == new_root@,
            !final(self).commit_in_progress,
            final(self).batch_commit_size == old(self).batch_commit_size,
            anchor_ok ==> final(self).main_root@ == new_root@ && final(self).update_counter == 0,
            !anchor_ok ==> final(self).main_root == old(self).main_root,
            !anchor_ok ==> final(self).update_counter == old(self).update_counter,
    {
        self.persisted_root = new_root.clone();
        self.temporary_root = new_root.clone();
        if anchor_ok {
            self.main_root = new_root.clone();
            self.update_counter = 0;
        }
        self.commit_in_progress = false;
    }

    /// Resets every root to `new_root` and restarts batching; used after
    /// the stored data is cleared.
    pub fn reset_roots(&mut self, new_root: &Digest)
        requires
            old(self).wf(),
            new_root.wf(),
        ensures
            final(self).wf(),
            final(self).main_root@ == new_root@,
            final(self).temporary_root@ == new_root@,
            final(self).persisted_root@ == new_root@,
            final(self).update_counter == 0,
            final(self).batch_commit_size == old(self).batch_commit_size,
            final(self).commit_in_progress == old(self).commit_in_progress,
    {
        self.main_root = new_root.clone();
        self.temporary_root = new_root.clone();
        self.persisted_root = new_root.clone();
        self.update_counter = 0;
    }
}

/// Batch thresholds behave as configured: a threshold of 1 triggers an
/// anchor commit on every write, and a threshold above the write count has
/// not triggered yet.
pub proof fn lemma_batch_threshold(counter_after: u64, batch_commit_size: u64)
    requires
        batch_commit_size >= 1,
        counter_after >= 1,
    ensures
        batch_commit_size == 1 ==> counter_after % batch_commit_size == 0,
        counter_after < batch_commit_size ==> counter_after % batch_commit_size != 0,
{
    if counter_after < batch_commit_size {
        vstd::arithmetic::div_mod::lemma_small_mod(
            counter_after as nat,
            batch_commit_size as nat,
        );
    }
}

} // verus!
