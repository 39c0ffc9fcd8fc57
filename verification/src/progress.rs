//! Run progress: how many items completed against how many are still owed.
//! The target starts at the manifest's total and may only shrink, by the size
//! of an item group that permanently failed; it never grows mid-run.

use vstd::prelude::*;

verus! {

/// Completed and owed item counts for one run. `initial` is the manifest's
/// total at startup and never changes.
pub struct ProgressTracker {
    pub completed: u32,
    pub target: u32,
    pub initial: u32,
}

impl ProgressTracker {
    /// Completion never overtakes the target, and the target never exceeds
    /// the manifest total.
    pub open spec fn wf(self) -> bool {
        self.completed <= self.target <= self.initial
    }

    /// Items given up on: what permanent failures took off the target.
    pub open spec fn abandoned(self) -> int {
        self.initial - self.target
    }

    /// A fresh tracker owing the manifest's whole total.
    pub fn new(total: u32) -> (r: ProgressTracker)
        ensures
            r.wf(),
            r.completed == 0,
            r.target == total,
            r.initial == total,
    {
        ProgressTracker { completed: 0, target: total, initial: total }
    }

    /// Records `n` items as completed.
    pub fn advance(&mut self, n: u32)
        requires
            old(self).wf(),
            old(self).completed + n <= old(self).target,
        ensures
            final(self).wf(),
            final(self).completed == old(self).completed + n,
            final(self).target == old(self).target,
            final(self).initial == old(self).initial,
    {
        self.completed = self.completed + n;
    }

    /// Takes `n` items off the target: they failed permanently and will not
    /// complete this run. The target only ever shrinks.
    pub fn shrink_target(&mut self, n: u32)
        requires
            old(self).wf(),
            old(self).completed + n <= old(self).target,
        ensures
            final(self).wf(),
            final(self).target == old(self).target - n,
            final(self).completed == old(self).completed,
            final(self).initial == old(self).initial,
    {
        self.target = self.target - n;
    }

    /// Says whether everything still owed has completed.
    pub fn is_complete(&self) -> (r: bool)
        ensures
            r == (self.completed == self.target),
    {
        self.completed == self.target
    }
}

/// Progress conservation: completed items plus items abandoned to permanent
/// failures never exceed the manifest's original total.
pub proof fn lemma_progress_conservation(p: ProgressTracker)
    requires
        p.wf(),
    ensures
        p.completed + p.abandoned() <= p.initial,
{
}

} // verus!
