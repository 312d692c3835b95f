//! A voter's housing situation.

use vstd::prelude::*;

verus! {

/// Which building shelters the voter, if any, and for how long they have
/// been without one (in simulated milliseconds).
#[derive(Debug, Default, Clone, Copy)]
pub struct RequiresHouse {
    pub shelter: Option<u64>,
    pub homeless_for_ms: u64,
}

} // verus!
