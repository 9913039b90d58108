//! The permit pool: a counting admission gate that bounds how many capture
//! operations may run at the same time. A permit is the right to run one
//! capture; the pool counts the permits outstanding and never hands out
//! more than its limit.

use vstd::prelude::*;

verus! {

/// What an admission attempt came back with.
pub enum AcquireOutcome {
    /// A slot was free: the caller now holds a permit.
    Granted,
    /// Every slot is taken; the caller must wait for a release.
    Busy,
    /// The pool has been closed; no permit will ever be granted again.
    Closed,
}

/// A counting gate with a fixed capacity of `limit` permits.
///
/// Invariant: the number of outstanding permits never exceeds `limit`,
/// and `limit` is at least 1.
pub struct PermitPool {
    limit: usize,
    held: usize,
    closed: bool,
}

impl PermitPool {
    /// The pool is well formed: at least one slot, never over-subscribed.
    pub closed spec fn wf(&self) -> bool {
        1 <= self.limit && self.held <= self.limit
    }

    /// The configured concurrency limit.
    pub closed spec fn spec_limit(&self) -> usize {
        self.limit
    }

    /// How many permits are currently outstanding.
    pub closed spec fn spec_held(&self) -> usize {
        self.held
    }

    /// Whether the pool has been shut down.
    pub closed spec fn spec_closed(&self) -> bool {
        self.closed
    }

    /// A well-formed pool never has more than `limit` permits outstanding,
    /// and always has at least one slot.
    pub proof fn lemma_wf_bounds(&self)
        requires
            self.wf(),
        ensures
            self.spec_held() <= self.spec_limit(),
            1 <= self.spec_limit(),
    {
    }

    /// Creates an open pool with `limit` slots, none of them taken.
    pub fn new(limit: usize) -> (pool: PermitPool)
        requires
            1 <= limit,
        ensures
            pool.wf(),
            pool.spec_limit() == limit,
            pool.spec_held() == 0,
            !pool.spec_closed(),
    {
        PermitPool { limit, held: 0, closed: false }
    }

    /// Attempts to take one slot. Grants a permit exactly when the pool is
    /// open and fewer than `limit` permits are outstanding; reports `Busy`
    /// when all slots are taken, `Closed` once the pool has been shut down.
    pub fn try_acquire(&mut self) -> (outcome: AcquireOutcome)
        requires
            old(self).wf(),
        ensures
            final(self).wf(),
            final(self).spec_limit() == old(self).spec_limit(),
            final(self).spec_closed() == old(self).spec_closed(),
            old(self).spec_closed() ==> (outcome is Closed && final(self).spec_held()
                == old(self).spec_held()),
            !old(self).spec_closed() && old(self).spec_held() < old(self).spec_limit() ==> (
            outcome is Granted && final(self).spec_held() == old(self).spec_held() + 1),
            !old(self).spec_closed() && old(self).spec_held() == old(self).spec_limit() ==> (
            outcome is Busy && final(self).spec_held() == old(self).spec_held()),
    {
        if self.closed {
            AcquireOutcome::Closed
        } else if self.held < self.limit {
            self.held = self.held + 1;
            AcquireOutcome::Granted
        } else {
            AcquireOutcome::Busy
        }
    }

    /// Gives one permit back, freeing a slot for the next waiter.
    pub fn release(&mut self)
        requires
            old(self).wf(),
            1 <= old(self).spec_held(),
        ensures
            final(self).wf(),
            final(self).spec_limit() == old(self).spec_limit(),
            final(self).spec_closed() == old(self).spec_closed(),
            final(self).spec_held() == old(self).spec_held() - 1,
    {
        self.held = self.held - 1;
    }

    /// Shuts the pool down: every later admission attempt reports `Closed`.
    pub fn close(&mut self)
        requires
            old(self).wf(),
        ensures
            final(self).wf(),
            final(self).spec_limit() == old(self).spec_limit(),
            final(self).spec_held() == old(self).spec_held(),
            final(self).spec_closed(),
    {
        self.closed = true;
    }
}

} // verus!
