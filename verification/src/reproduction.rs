//! A voter's reproductive drive, as far as the rating model reads it.

use vstd::prelude::*;

verus! {

#[derive(Debug, Default, Clone, Copy)]
pub struct Reproductive {
    pub wants_reproduction: bool,
}

impl Reproductive {
    pub fn wants_to_reproduce(&self) -> (r: bool)
        ensures
            r == self.wants_reproduction,
    {
        self.wants_reproduction
    }
}

} // verus!
