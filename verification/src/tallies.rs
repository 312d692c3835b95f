//! Per-option tallies over the rating vectors of everyone who voted, and the
//! lowest-index argmax/argmin scans the voting methods share.

use vstd::prelude::*;
use crate::ratings::{
    complete_ratings, find_rating, has_index, lemma_find_rating_entry, sorted_for_ballots,
    OptionRating,
};
use crate::want_level;

verus! {

/// The rating vectors of everyone who voted, as mathematical sequences.
pub open spec fn ratings_view(vecs: Seq<Vec<OptionRating>>) -> Seq<Seq<OptionRating>> {
    Seq::new(vecs.len(), |i: int| vecs[i]@)
}

/// The option a (descending-sorted) rating vector ranks first.
pub open spec fn first_choice(v: Seq<OptionRating>) -> int {
    v[0].option_index as int
}

/// The option a (descending-sorted) rating vector ranks last.
pub open spec fn last_choice(v: Seq<OptionRating>) -> int {
    v[v.len() - 1].option_index as int
}

/// Every voter's rating vector is a full vector for `n` options.
pub open spec fn all_complete(rat: Seq<Seq<OptionRating>>, n: int) -> bool {
    forall|i: int| 0 <= i < rat.len() ==> complete_ratings(#[trigger] rat[i], n)
}

/// Every voter's rating vector is sorted the way the encoders expect.
pub open spec fn all_sorted(rat: Seq<Seq<OptionRating>>) -> bool {
    forall|i: int| 0 <= i < rat.len() ==> sorted_for_ballots(#[trigger] rat[i])
}

/// Whether this voter approves option `j`: its rating reaches
/// `SLIGHTLY_POSITIVE`.
pub open spec fn approves_option(v: Seq<OptionRating>, j: int) -> bool {
    find_rating(v, j) >= want_level::SLIGHTLY_POSITIVE as int
}

/// Number of voters whose first choice is option `j`.
pub open spec fn fptp_count(rat: Seq<Seq<OptionRating>>, j: int) -> nat
    decreases rat.len(),
{
    if rat.len() == 0 {
        0
    } else {
        fptp_count(rat.drop_last(), j) + (if first_choice(rat.last()) == j {
            1nat
        } else {
            0nat
        })
    }
}

/// Number of voters whose last choice is option `j`.
pub open spec fn last_count(rat: Seq<Seq<OptionRating>>, j: int) -> nat
    decreases rat.len(),
{
    if rat.len() == 0 {
        0
    } else {
        last_count(rat.drop_last(), j) + (if last_choice(rat.last()) == j {
            1nat
        } else {
            0nat
        })
    }
}

/// Number of voters who approve option `j`.
pub open spec fn approval_count(rat: Seq<Seq<OptionRating>>, j: int) -> nat
    decreases rat.len(),
{
    if rat.len() == 0 {
        0
    } else {
        approval_count(rat.drop_last(), j) + (if approves_option(rat.last(), j) {
            1nat
        } else {
            0nat
        })
    }
}

/// Number of voters who grade option `j` with grade `g` (0 = Bad, 1 = Ok,
/// 2 = Good).
pub open spec fn grade_count(rat: Seq<Seq<OptionRating>>, j: int, g: int) -> nat
    decreases rat.len(),
{
    if rat.len() == 0 {
        0
    } else {
        grade_count(rat.drop_last(), j, g) + (if crate::ballots::grade_of(
            find_rating(rat.last(), j),
        ) == g {
            1nat
        } else {
            0nat
        })
    }
}

/// Number of voters who grade option `a` strictly above option `b`.
pub open spec fn grade_prefers_count(rat: Seq<Seq<OptionRating>>, a: int, b: int) -> nat
    decreases rat.len(),
{
    if rat.len() == 0 {
        0
    } else {
        grade_prefers_count(rat.drop_last(), a, b) + (if crate::ballots::grade_of(
            find_rating(rat.last(), a),
        ) > crate::ballots::grade_of(find_rating(rat.last(), b)) {
            1nat
        } else {
            0nat
        })
    }
}

/// Number of voters who score option `a` strictly above option `b` on the
/// `0..=nscale` scale.
pub open spec fn score_prefers_count(rat: Seq<Seq<OptionRating>>, nscale: int, a: int, b: int) -> nat
    decreases rat.len(),
{
    if rat.len() == 0 {
        0
    } else {
        score_prefers_count(rat.drop_last(), nscale, a, b) + (if crate::ballots::score_of(
            nscale,
            find_rating(rat.last(), a),
        ) > crate::ballots::score_of(nscale, find_rating(rat.last(), b)) {
            1nat
        } else {
            0nat
        })
    }
}

/// Sum over all voters of the score they give option `j` on the `0..=nscale`
/// scale.
pub open spec fn score_total(rat: Seq<Seq<OptionRating>>, nscale: int, j: int) -> int
    decreases rat.len(),
{
    if rat.len() == 0 {
        0
    } else {
        score_total(rat.drop_last(), nscale, j) + crate::ballots::score_of(
            nscale,
            find_rating(rat.last(), j),
        )
    }
}

/// Number of voters who score option `j` at most `g` on the `0..=nscale`
/// scale.
pub open spec fn score_le_count(rat: Seq<Seq<OptionRating>>, nscale: int, j: int, g: int) -> nat
    decreases rat.len(),
{
    if rat.len() == 0 {
        0
    } else {
        score_le_count(rat.drop_last(), nscale, j, g) + (if crate::ballots::score_of(
            nscale,
            find_rating(rat.last(), j),
        ) <= g {
            1nat
        } else {
            0nat
        })
    }
}

/// Number of voters who score option `j` exactly `g`.
pub open spec fn score_eq_count(rat: Seq<Seq<OptionRating>>, nscale: int, j: int, g: int) -> nat
    decreases rat.len(),
{
    if rat.len() == 0 {
        0
    } else {
        score_eq_count(rat.drop_last(), nscale, j, g) + (if crate::ballots::score_of(
            nscale,
            find_rating(rat.last(), j),
        ) == g {
            1nat
        } else {
            0nat
        })
    }
}

/// Read the rating a complete vector gives option `j`.
pub fn rating_for(v: &Vec<OptionRating>, j: usize) -> (r: i32)
    requires
        complete_ratings(v@, v@.len() as int),
        j < v@.len(),
    ensures
        r as int == find_rating(v@, j as int),
{
    let mut k: usize = 0;
    proof {
        assert(has_index(v@, j as int));
    }
    while k < v.len()
        invariant
            k <= v@.len(),
            complete_ratings(v@, v@.len() as int),
            j < v@.len(),
            has_index(v@, j as int),
            forall|t: int| 0 <= t < k ==> (#[trigger] v@[t]).option_index != j,
        decreases v@.len() - k,
    {
        if v[k].option_index == j {
            proof {
                lemma_find_rating_entry(v@, k as int);
            }
            return v[k].rating;
        }
        k = k + 1;
    }
    proof {
        let w = choose|t: int| 0 <= t < v@.len() && (#[trigger] v@[t]).option_index == j as int;
        assert(false);
    }
    0
}

/// Two different options cannot together be the first choice of more voters
/// than voted.
pub proof fn lemma_fptp_count_disjoint(rat: Seq<Seq<OptionRating>>, j1: int, j2: int)
    requires
        j1 != j2,
    ensures
        fptp_count(rat, j1) + fptp_count(rat, j2) <= rat.len(),
    decreases rat.len(),
{
    if rat.len() > 0 {
        lemma_fptp_count_disjoint(rat.drop_last(), j1, j2);
    }
}

/// Lowest-index maximum of a non-empty tally list.
pub fn argmax_usize(t: &Vec<usize>) -> (w: usize)
    requires
        t@.len() >= 1,
    ensures
        w < t@.len(),
        forall|j: int| 0 <= j < t@.len() ==> t@[j] <= t@[w as int],
        forall|j: int| 0 <= j < w ==> t@[j] < t@[w as int],
{
    let mut w: usize = 0;
    let mut k: usize = 1;
    while k < t.len()
        invariant
            w < k <= t@.len(),
            forall|j: int| 0 <= j < k ==> t@[j] <= t@[w as int],
            forall|j: int| 0 <= j < w ==> t@[j] < t@[w as int],
        decreases t@.len() - k,
    {
        if t[k] > t[w] {
            w = k;
        }
        k = k + 1;
    }
    w
}

/// Lowest-index minimum of a non-empty tally list.
pub fn argmin_usize(t: &Vec<usize>) -> (w: usize)
    requires
        t@.len() >= 1,
    ensures
        w < t@.len(),
        forall|j: int| 0 <= j < t@.len() ==> t@[j] >= t@[w as int],
        forall|j: int| 0 <= j < w ==> t@[j] > t@[w as int],
{
    let mut w: usize = 0;
    let mut k: usize = 1;
    while k < t.len()
        invariant
            w < k <= t@.len(),
            forall|j: int| 0 <= j < k ==> t@[j] >= t@[w as int],
            forall|j: int| 0 <= j < w ==> t@[j] > t@[w as int],
        decreases t@.len() - k,
    {
        if t[k] < t[w] {
            w = k;
        }
        k = k + 1;
    }
    w
}

} // verus!
