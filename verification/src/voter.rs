//! A voter's fixed personality: how much they care about each option
//! category, on the seven-level scale.

use vstd::prelude::*;
use crate::rng::Rng;
use crate::want_level;

verus! {

#[derive(Debug, Default, Clone, Copy)]
pub struct Voter {
    pub money_care: i32,
    pub food_care: i32,
    pub reproductive_care: i32,
    pub housing_care: i32,
    pub death_care: i32,
}

impl Voter {
    /// Every care value stays on the seven-level scale.
    pub open spec fn valid(self) -> bool {
        &&& want_level::EXTREMELY_NEGATIVE <= self.money_care <= want_level::EXTREMELY_POSITIVE
        &&& want_level::EXTREMELY_NEGATIVE <= self.food_care <= want_level::EXTREMELY_POSITIVE
        &&& want_level::EXTREMELY_NEGATIVE <= self.reproductive_care
            <= want_level::EXTREMELY_POSITIVE
        &&& want_level::EXTREMELY_NEGATIVE <= self.housing_care <= want_level::EXTREMELY_POSITIVE
        &&& want_level::EXTREMELY_NEGATIVE <= self.death_care <= want_level::EXTREMELY_POSITIVE
    }

    /// A voter with every care drawn uniformly from the scale.
    pub fn new_random(rng: &mut Rng) -> (v: Voter)
        ensures
            v.valid(),
    {
        Voter {
            money_care: random_care_value(rng),
            food_care: random_care_value(rng),
            reproductive_care: random_care_value(rng),
            housing_care: random_care_value(rng),
            death_care: random_care_value(rng),
        }
    }
}

fn random_care_value(rng: &mut Rng) -> (r: i32)
    ensures
        want_level::EXTREMELY_NEGATIVE <= r < want_level::EXTREMELY_POSITIVE,
{
    rng.gen_range_i32(want_level::EXTREMELY_NEGATIVE, want_level::EXTREMELY_POSITIVE)
}

} // verus!
