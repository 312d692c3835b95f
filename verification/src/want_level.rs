//! The fixed seven-level desirability scale used by every rating.

use vstd::prelude::*;

verus! {

pub const EXTREMELY_NEGATIVE: i32 = -30;

pub const NEGATIVE: i32 = -20;

pub const SLIGHTLY_NEGATIVE: i32 = -10;

pub const NEUTRAL: i32 = 0;

pub const SLIGHTLY_POSITIVE: i32 = 10;

pub const POSITIVE: i32 = 20;

pub const EXTREMELY_POSITIVE: i32 = 30;

/// The seven levels in ascending order are -30, -20, ..., 30: the level with
/// index `i` (for `0 <= i <= 6`) is `-30 + 10 * i`.
pub open spec fn level_value(i: int) -> int {
    -30 + 10 * i
}

} // verus!
