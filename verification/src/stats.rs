//! The result aggregator: a pair of monotonically increasing counters,
//! updated exactly once per completed task.

use vstd::prelude::*;

verus! {

/// Success and failure counts for one executor run.
pub struct ExecutionStats {
    success: usize,
    fail: usize,
}

impl ExecutionStats {
    /// Tasks recorded as succeeded.
    pub closed spec fn spec_success(&self) -> usize {
        self.success
    }

    /// Tasks recorded as failed.
    pub closed spec fn spec_fail(&self) -> usize {
        self.fail
    }

    /// Fresh counters, both zero.
    pub fn new() -> (stats: ExecutionStats)
        ensures
            stats.spec_success() == 0,
            stats.spec_fail() == 0,
    {
        ExecutionStats { success: 0, fail: 0 }
    }

    /// Records one completed task: bumps the success counter when the task
    /// produced an artifact, the failure counter otherwise.
    pub fn record(&mut self, captured: bool)
        requires
            old(self).spec_success() + old(self).spec_fail() < usize::MAX,
        ensures
            captured ==> final(self).spec_success() == old(self).spec_success() + 1,
            captured ==> final(self).spec_fail() == old(self).spec_fail(),
            !captured ==> final(self).spec_fail() == old(self).spec_fail() + 1,
            !captured ==> final(self).spec_success() == old(self).spec_success(),
    {
        if captured {
            self.success = self.success + 1;
        } else {
            self.fail = self.fail + 1;
        }
    }

    /// A point-in-time snapshot of `(successes, failures)`. Reading changes
    /// nothing: two reads of the same state return the same pair.
    pub fn snapshot(&self) -> (r: (usize, usize))
        ensures
            r.0 == self.spec_success(),
            r.1 == self.spec_fail(),
    {
        (self.success, self.fail)
    }
}

} // verus!
