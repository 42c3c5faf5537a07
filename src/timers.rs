use vstd::prelude::*;

verus! {

/// Divides a periodic tick: fires once every `limit + 1` ticks.
pub struct TickDivider {
    count: u32,
    limit: u32,
}

impl TickDivider {
    pub closed spec fn count(&self) -> u32 {
        self.count
    }

    pub closed spec fn limit(&self) -> u32 {
        self.limit
    }

    pub fn new(limit: u32) -> (d: TickDivider)
        ensures
            d.count() == 0,
            d.limit() == limit,
    {
        TickDivider { count: 0, limit }
    }

    /// Changes the divider's period; takes effect from the next tick on.
    pub fn set_limit(&mut self, limit: u32)
        ensures
            final(self).count() == old(self).count(),
            final(self).limit() == limit,
    {
        self.limit = limit;
    }

    /// Counts one tick; returns whether this tick completes a period.
    pub fn tick(&mut self) -> (fired: bool)
        ensures
            fired == (old(self).count() >= old(self).limit()),
            final(self).limit() == old(self).limit(),
            final(self).count() == if fired { 0 } else { (old(self).count() + 1) as u32 },
    {
        if self.count >= self.limit {
            self.count = 0;
            true
        } else {
            self.count = self.count + 1;
            false
        }
    }
}

} // verus!
