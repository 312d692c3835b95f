//! One voter's rating vector: one `(option index, rating)` entry per election
//! option, and the well-formedness facts every encoder and tally relies on.

use vstd::prelude::*;

verus! {

/// How much one voter wants one option, on the seven-level scale
/// (care modifiers and jitter can push the value past the scale's ends).
#[derive(Debug, Clone, Copy)]
pub struct OptionRating {
    pub option_index: usize,
    pub rating: i32,
}

pub open spec fn indices_in_range(rs: Seq<OptionRating>, n: int) -> bool {
    forall|i: int| 0 <= i < rs.len() ==> (#[trigger] rs[i]).option_index < n
}

pub open spec fn indices_distinct(rs: Seq<OptionRating>) -> bool {
    forall|i: int, j: int|
        0 <= i < j < rs.len() ==> (#[trigger] rs[i]).option_index != (#[trigger] rs[j]).option_index
}

pub open spec fn has_index(rs: Seq<OptionRating>, j: int) -> bool {
    exists|k: int| 0 <= k < rs.len() && (#[trigger] rs[k]).option_index == j
}

pub open spec fn indices_cover(rs: Seq<OptionRating>, n: int) -> bool {
    forall|j: int| 0 <= j < n ==> #[trigger] has_index(rs, j)
}

/// A full rating vector for an election with `n` options: exactly one entry
/// per option index in `0..n`.
pub open spec fn complete_ratings(rs: Seq<OptionRating>, n: int) -> bool {
    &&& rs.len() == n
    &&& indices_in_range(rs, n)
    &&& indices_distinct(rs)
    &&& indices_cover(rs, n)
}

/// `a` comes before `b` in encoder order: higher rating first, and equal
/// ratings keep option-list order.
pub open spec fn rating_precedes(a: OptionRating, b: OptionRating) -> bool {
    a.rating > b.rating || (a.rating == b.rating && a.option_index < b.option_index)
}

/// Sorted the way the ballot encoders expect: descending by rating, ties in
/// ascending option order.
pub open spec fn sorted_for_ballots(rs: Seq<OptionRating>) -> bool {
    forall|i: int, j: int| 0 <= i < j < rs.len() ==> rating_precedes(#[trigger] rs[i], #[trigger] rs[j])
}

/// The rating that `rs` assigns to option `j` (the first matching entry;
/// `0` if no entry mentions `j`).
pub open spec fn find_rating(rs: Seq<OptionRating>, j: int) -> int
    decreases rs.len(),
{
    if rs.len() == 0 {
        0
    } else if rs[0].option_index == j {
        rs[0].rating as int
    } else {
        find_rating(rs.drop_first(), j)
    }
}

/// With distinct indices, every entry is the entry `find_rating` reads.
pub proof fn lemma_find_rating_entry(rs: Seq<OptionRating>, k: int)
    requires
        indices_distinct(rs),
        0 <= k < rs.len(),
    ensures
        find_rating(rs, rs[k].option_index as int) == rs[k].rating,
    decreases rs.len(),
{
    if k > 0 {
        assert(rs[0].option_index != rs[k].option_index);
        assert(indices_distinct(rs.drop_first())) by {
            assert(forall|i: int, j: int|
                0 <= i < j < rs.drop_first().len() ==> rs.drop_first()[i] == rs[i + 1]
                    && rs.drop_first()[j] == rs[j + 1]);
        }
        lemma_find_rating_entry(rs.drop_first(), k - 1);
        assert(rs.drop_first()[k - 1] == rs[k]);
    }
}

} // verus!
