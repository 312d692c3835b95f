//! The simulation's deterministic random stream: one seedable generator,
//! consumed sequentially so that a fixed seed reproduces a whole run.

use vstd::prelude::*;
use rand::SeedableRng;

verus! {

#[verifier::external_type_specification]
#[verifier::external_body]
pub struct ExXoshiro(rand_xoshiro::Xoshiro256StarStar);

/// A seed for the stream.
#[derive(Debug, Clone, Copy, PartialEq, Eq, Structural)]
pub enum Seed {
    Number(u64),
}

/// The process-wide random stream.
pub struct Rng {
    pub inner: rand_xoshiro::Xoshiro256StarStar,
}

impl Rng {
    /// Relies on rand_xoshiro's `Xoshiro256StarStar::seed_from_u64` (from
    /// rand_core's `SeedableRng`) to build the generator from a seed.
    #[verifier::external_body]
    pub fn new(seed: Seed) -> Rng {
        let Seed::Number(num) = seed;
        Rng { inner: rand_xoshiro::Xoshiro256StarStar::seed_from_u64(num) }
    }

    /// Relies on rand's `Rng::gen_range`: a draw from `lo..hi`, which panics
    /// on an empty range and otherwise returns a value in the range.
    #[verifier::external_body]
    pub fn gen_range_i32(&mut self, lo: i32, hi: i32) -> (r: i32)
        requires
            lo < hi,
        ensures
            lo <= r < hi,
    {
        rand::Rng::gen_range(&mut self.inner, lo..hi)
    }

    /// Relies on rand's `Rng::gen_range`: a draw from `lo..hi`, which panics
    /// on an empty range and otherwise returns a value in the range.
    #[verifier::external_body]
    pub fn gen_range_usize(&mut self, lo: usize, hi: usize) -> (r: usize)
        requires
            lo < hi,
        ensures
            lo <= r < hi,
    {
        rand::Rng::gen_range(&mut self.inner, lo..hi)
    }
}

} // verus!
