//! Soul power: the resource pool spent to perform the costed combo attacks.

use vstd::prelude::*;

verus! {

/// Soul power of an entity: a pool `now` bounded by `max`.
#[derive(Clone, Copy, Debug, PartialEq, Eq, Structural)]
pub struct SoulPower {
    pub now: u32,
    pub max: u32,
}

impl SoulPower {
    /// A pool is well formed when the current amount never exceeds the limit.
    pub open spec fn wf(self) -> bool {
        self.now <= self.max
    }

    /// Spend `cost` points atomically: either the full amount is deducted
    /// and the request succeeds, or nothing changes and it fails.
    pub fn cost(&mut self, cost: u32) -> (ok: bool)
        ensures
            ok == (old(self).now >= cost),
            ok ==> final(self).now == old(self).now - cost,
            !ok ==> *final(self) == *old(self),
            final(self).max == old(self).max,
            old(self).wf() ==> final(self).wf(),
    {
        if self.now >= cost {
            self.now -= cost;
            true
        } else {
            false
        }
    }

    /// Gain `soul` points, saturating at the pool's limit.
    pub fn obtain(&mut self, soul: u32)
        requires
            old(self).wf(),
        ensures
            final(self).max == old(self).max,
            final(self).now == if old(self).now + soul <= old(self).max {
                old(self).now + soul
            } else {
                old(self).max as int
            },
            final(self).wf(),
    {
        self.now = if soul <= self.max - self.now {
            self.now + soul
        } else {
            self.max
        };
    }
}

} // verus!
