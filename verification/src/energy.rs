//! A voter's energy reserve, in integer kilocalories.

use vstd::prelude::*;

verus! {

#[derive(Debug, Clone, Copy)]
pub struct Energy {
    pub current_kcal: u64,
    pub max_kcal: u64,
}

impl Energy {
    pub fn new(current_kcal: u64, max_kcal: u64) -> (r: Self)
        ensures
            r.current_kcal == current_kcal,
            r.max_kcal == max_kcal,
    {
        Energy { current_kcal, max_kcal }
    }

    /// Burn kilocalories, stopping at zero.
    pub fn use_kcal(&mut self, kcal: u64)
        ensures
            final(self).max_kcal == old(self).max_kcal,
            final(self).current_kcal as int == if old(self).current_kcal >= kcal {
                old(self).current_kcal - kcal
            } else {
                0int
            },
    {
        if self.current_kcal >= kcal {
            self.current_kcal = self.current_kcal - kcal;
        } else {
            self.current_kcal = 0;
        }
    }

    /// The reserve is below the given percentage of its maximum.
    pub open spec fn below_percent(self, percent: int) -> bool {
        100 * self.current_kcal < percent * self.max_kcal
    }
}

} // verus!
