//! The concurrency controller: a fixed pool of permits that bounds how many
//! fetches are in flight at once. Every code path that acquires a permit must
//! release it exactly once, whichever branch it leaves through.

use vstd::prelude::*;

verus! {

/// Permits in use against a fixed bound.
pub struct ConcurrencyController {
    pub in_flight: u32,
    pub bound: u32,
}

impl ConcurrencyController {
    /// No more permits are ever out than the bound allows.
    pub open spec fn wf(self) -> bool {
        self.in_flight <= self.bound
    }

    /// A controller with every permit free.
    pub fn new(bound: u32) -> (r: ConcurrencyController)
        ensures
            r.wf(),
            r.in_flight == 0,
            r.bound == bound,
    {
        ConcurrencyController { in_flight: 0, bound }
    }

    /// Hands out a permit when one is free.
    pub fn try_acquire(&mut self) -> (ok: bool)
        requires
            old(self).wf(),
        ensures
            final(self).wf(),
            final(self).bound == old(self).bound,
            ok == (old(self).in_flight < old(self).bound),
            ok ==> final(self).in_flight == old(self).in_flight + 1,
            !ok ==> final(self).in_flight == old(self).in_flight,
    {
        if self.in_flight < self.bound {
            self.in_flight = self.in_flight + 1;
            true
        } else {
            false
        }
    }

    /// Returns a permit.
    pub fn release(&mut self)
        requires
            old(self).wf(),
            old(self).in_flight >= 1,
        ensures
            final(self).wf(),
            final(self).bound == old(self).bound,
            final(self).in_flight == old(self).in_flight - 1,
    {
        self.in_flight = self.in_flight - 1;
    }
}

/// Permit discipline: while the controller is well formed, the fetches in
/// flight never exceed the configured bound.
pub proof fn lemma_permit_discipline(c: ConcurrencyController)
    requires
        c.wf(),
    ensures
        c.in_flight <= c.bound,
{
}

} // verus!
