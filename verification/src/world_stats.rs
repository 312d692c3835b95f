//! The aggregate world statistics the rating model reads: storage and
//! housing fill levels as whole percentages, and recent deaths by reason.

use vstd::prelude::*;

verus! {

#[derive(Debug, Clone, Copy)]
pub struct WorldStats {
    /// Peak money-storage fill over the recent window, in percent.
    pub hole_filled_max_percent: u32,
    /// Average money-storage fill over the recent window, in percent.
    pub hole_filled_avg_percent: u32,
    /// Peak housing occupancy over the recent window, in percent.
    pub houses_filled_max_percent: u32,
    /// Current population.
    pub population: u32,
    /// Recent deaths from starvation.
    pub starvation_deaths: u32,
    /// Recent deaths from homelessness.
    pub homelessness_deaths: u32,
    /// All recent deaths.
    pub total_deaths: u32,
}

impl WorldStats {
    /// Per-reason death counts never exceed the total, and population plus
    /// deaths stays countable.
    pub open spec fn wf(self) -> bool {
        &&& self.starvation_deaths <= self.total_deaths
        &&& self.homelessness_deaths <= self.total_deaths
        &&& self.population as int + self.total_deaths as int <= 0xffff_ffff
    }

    pub fn new() -> (s: WorldStats)
        ensures
            s.wf(),
            s.hole_filled_max_percent == 0,
            s.hole_filled_avg_percent == 0,
            s.houses_filled_max_percent == 0,
            s.population == 0,
            s.starvation_deaths == 0,
            s.homelessness_deaths == 0,
            s.total_deaths == 0,
    {
        WorldStats {
            hole_filled_max_percent: 0,
            hole_filled_avg_percent: 0,
            houses_filled_max_percent: 0,
            population: 0,
            starvation_deaths: 0,
            homelessness_deaths: 0,
            total_deaths: 0,
        }
    }
}

} // verus!
