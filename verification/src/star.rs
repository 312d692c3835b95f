//! STAR (Score Then Automatic Runoff): every voter scores every option on a
//! 0..=5 scale; the two options with the highest score totals go to a
//! runoff, which each voter's ballot decides by which finalist it scores
//! higher.  The runoff winner takes the election; a tied runoff goes to the
//! first finalist (the one with the higher score total).  Tied score totals
//! go to the lower option index.

use vstd::prelude::*;
use crate::ballots::{
    fill, get_thresholds_scores, score_for_rating, score_of, ScoreBallot, VotingMethod,
};
use crate::bundles::{
    ballot_views, bundles_group, bundles_sorted, total_bundle_votes, vote_bundle, VoteBundle,
};
use crate::election::ElectionOption;
use crate::ratings::{find_rating, OptionRating};
use crate::tallies::{all_complete, rating_for, ratings_view, score_prefers_count, score_total};

verus! {

/// One finalist's runoff vote count.
pub struct RunoffTally {
    pub option_index: usize,
    pub votes: usize,
}

/// The two finalists' runoff outcome: `a` is the finalist with the higher
/// score total.
pub struct Runoff {
    pub a: RunoffTally,
    pub b: RunoffTally,
}

/// One option's total score.
pub struct ScoreTally {
    pub option_index: usize,
    pub score: i32,
}

/// The 0..=5 score ballots each voter would cast, one view per voter.
pub open spec fn star_ballot_views(rat: Seq<Seq<OptionRating>>) -> Seq<Seq<int>> {
    Seq::new(rat.len(), |i: int| Seq::new(rat[i].len(), |j: int| score_of(5, find_rating(rat[i], j))))
}

pub struct StarResult {
    pub winner: ElectionOption,
    pub winner_index: usize,
    pub total_votes: usize,
    pub runoff: Runoff,
    pub score_tally: Vec<ScoreTally>,
    pub bundles: Vec<VoteBundle<ScoreBallot<5>>>,
}

/// The two runoff finalists: `a` is the lowest-index option with the top
/// score total, `b` the lowest-index option with the top total among the
/// rest.
pub open spec fn star_finalists_valid(
    r: StarResult,
    n: int,
    rat: Seq<Seq<OptionRating>>,
) -> bool {
    let a = r.runoff.a.option_index as int;
    let b = r.runoff.b.option_index as int;
    &&& 0 <= a < n
    &&& 0 <= b < n
    &&& a != b
    &&& forall|j: int| 0 <= j < n ==> #[trigger] score_total(rat, 5, j) <= score_total(rat, 5, a)
    &&& forall|j: int| 0 <= j < a ==> #[trigger] score_total(rat, 5, j) < score_total(rat, 5, a)
    &&& forall|j: int|
        0 <= j < n && j != a ==> #[trigger] score_total(rat, 5, j) <= score_total(rat, 5, b)
    &&& forall|j: int|
        0 <= j < b && j != a ==> #[trigger] score_total(rat, 5, j) < score_total(rat, 5, b)
}

/// What a STAR result must look like: score totals per option in option
/// order, the two finalists as above, the runoff counting the voters who
/// score one finalist over the other, the winner decided by the runoff with
/// ties going to the first finalist, and the bundles faithfully grouping all
/// cast ballots.
pub open spec fn star_valid(
    r: StarResult,
    options: Seq<ElectionOption>,
    rat: Seq<Seq<OptionRating>>,
) -> bool {
    let a = r.runoff.a.option_index as int;
    let b = r.runoff.b.option_index as int;
    &&& r.total_votes == rat.len()
    &&& r.score_tally@.len() == options.len()
    &&& forall|j: int|
        0 <= j < options.len() ==> (#[trigger] r.score_tally@[j]).option_index == j
            && r.score_tally@[j].score == score_total(rat, 5, j)
    &&& star_finalists_valid(r, options.len() as int, rat)
    &&& r.runoff.a.votes == score_prefers_count(rat, 5, a, b)
    &&& r.runoff.b.votes == score_prefers_count(rat, 5, b, a)
    &&& r.winner_index as int == (if r.runoff.a.votes >= r.runoff.b.votes {
        a
    } else {
        b
    })
    &&& r.winner@ == options[r.winner_index as int]@
    &&& bundles_group(r.bundles@, star_ballot_views(rat))
    &&& bundles_sorted(r.bundles@)
    &&& total_bundle_votes(r.bundles@) == rat.len()
}

pub struct Star;

impl Star {
    pub fn result(options: &Vec<ElectionOption>, option_ratings: &Vec<Vec<OptionRating>>) -> (r:
        StarResult)
        requires
            options@.len() >= 2,
            1 <= option_ratings@.len() <= 0x1000_0000,
            all_complete(ratings_view(option_ratings@), options@.len() as int),
        ensures
            star_valid(r, options@, ratings_view(option_ratings@)),
    {
        let ghost rat = ratings_view(option_ratings@);
        let n = options.len();
        let thresholds = get_thresholds_scores(5);
        let mut totals: Vec<i32> = Vec::new();
        let mut j: usize = 0;
        while j < n
            invariant
                j <= n,
                n == options@.len(),
                rat == ratings_view(option_ratings@),
                all_complete(rat, n as int),
                n >= 2,
                rat.len() <= 0x1000_0000,
                thresholds@.len() == 6,
                forall|t: int|
                    0 <= t <= 5 ==> (#[trigger] thresholds@[t]).score == 5 - t
                        && thresholds@[t].rating == crate::ballots::level_at(5, 5 - t),
                totals@.len() == j,
                forall|t: int| 0 <= t < j ==> totals@[t] == score_total(rat, 5, t),
            decreases n - j,
        {
            let mut c: i32 = 0;
            let mut i: usize = 0;
            while i < option_ratings.len()
                invariant
                    i <= rat.len(),
                    rat == ratings_view(option_ratings@),
                    all_complete(rat, n as int),
                    rat.len() <= 0x1000_0000,
                    j < n,
                    thresholds@.len() == 6,
                    forall|t: int|
                        0 <= t <= 5 ==> (#[trigger] thresholds@[t]).score == 5 - t
                            && thresholds@[t].rating == crate::ballots::level_at(5, 5 - t),
                    c == score_total(rat.take(i as int), 5, j as int),
                    0 <= c <= 5 * i,
                decreases rat.len() - i,
            {
                proof {
                    assert(rat.take(i + 1).drop_last() =~= rat.take(i as int));
                    assert(rat.take(i + 1).last() == rat[i as int]);
                    assert(rat[i as int] == option_ratings@[i as int]@);
                }
                let rating = rating_for(&option_ratings[i], j);
                let s = score_for_rating(&thresholds, 5, rating);
                proof {
                    crate::ballots::lemma_score_from_bounds(5, 5, rating as int);
                }
                c = c + s;
                i = i + 1;
            }
            proof {
                assert(rat.take(rat.len() as int) =~= rat);
            }
            totals.push(c);
            j = j + 1;
        }
        // Lowest-index top total, then lowest-index top total among the rest.
        let mut a: usize = 0;
        let mut k: usize = 1;
        while k < n
            invariant
                a < k <= n,
                totals@.len() == n,
                forall|t: int| 0 <= t < k ==> totals@[t] <= totals@[a as int],
                forall|t: int| 0 <= t < a ==> totals@[t] < totals@[a as int],
            decreases n - k,
        {
            if totals[k] > totals[a] {
                a = k;
            }
            k = k + 1;
        }
        let mut b: usize = if a == 0 {
            1
        } else {
            0
        };
        let mut k2: usize = 0;
        while k2 < n
            invariant
                n >= 2,
                a < n,
                b < n,
                a != b,
                totals@.len() == n,
                forall|t: int| 0 <= t < k2 && t != a ==> totals@[t] <= totals@[b as int],
                forall|t: int| 0 <= t < b && t != a ==> totals@[t] < totals@[b as int],
            decreases n - k2,
        {
            if k2 != a && k2 != b && totals[k2] > totals[b] {
                b = k2;
            }
            k2 = k2 + 1;
        }
        // Runoff: count the voters who score one finalist above the other.
        let mut va: usize = 0;
        let mut vb: usize = 0;
        let mut i2: usize = 0;
        while i2 < option_ratings.len()
            invariant
                i2 <= rat.len(),
                rat == ratings_view(option_ratings@),
                all_complete(rat, n as int),
                n == options@.len(),
                a < n,
                b < n,
                thresholds@.len() == 6,
                forall|t: int|
                    0 <= t <= 5 ==> (#[trigger] thresholds@[t]).score == 5 - t
                        && thresholds@[t].rating == crate::ballots::level_at(5, 5 - t),
                va <= i2,
                vb <= i2,
                va == score_prefers_count(rat.take(i2 as int), 5, a as int, b as int),
                vb == score_prefers_count(rat.take(i2 as int), 5, b as int, a as int),
            decreases rat.len() - i2,
        {
            proof {
                assert(rat.take(i2 + 1).drop_last() =~= rat.take(i2 as int));
                assert(rat.take(i2 + 1).last() == rat[i2 as int]);
                assert(rat[i2 as int] == option_ratings@[i2 as int]@);
            }
            let ra = rating_for(&option_ratings[i2], a);
            let rb = rating_for(&option_ratings[i2], b);
            let sa = score_for_rating(&thresholds, 5, ra);
            let sb = score_for_rating(&thresholds, 5, rb);
            if sa > sb {
                va = va + 1;
            } else if sb > sa {
                vb = vb + 1;
            }
            i2 = i2 + 1;
        }
        proof {
            assert(rat.take(rat.len() as int) =~= rat);
        }
        let w = if va >= vb {
            a
        } else {
            b
        };
        let winner = options[w].clone();
        let mut score_tally: Vec<ScoreTally> = Vec::new();
        let mut j2: usize = 0;
        while j2 < n
            invariant
                j2 <= n,
                totals@.len() == n,
                forall|t: int| 0 <= t < n ==> totals@[t] == score_total(rat, 5, t),
                score_tally@.len() == j2,
                forall|t: int|
                    0 <= t < j2 ==> (#[trigger] score_tally@[t]).option_index == t
                        && score_tally@[t].score == score_total(rat, 5, t),
            decreases n - j2,
        {
            score_tally.push(ScoreTally { option_index: j2, score: totals[j2] });
            j2 = j2 + 1;
        }
        proof {
            assert forall|i: int| 0 <= i < option_ratings@.len() implies ScoreBallot::<5>::valid_fill(
                (#[trigger] option_ratings@[i])@,
            ) by {
                assert(rat[i] == option_ratings@[i]@);
            }
        }
        let votes: Vec<ScoreBallot<5>> = fill(option_ratings);
        let bundles = vote_bundle(&votes);
        proof {
            assert forall|i: int| 0 <= i < rat.len() implies #[trigger] ballot_views(votes@)[i]
                == star_ballot_views(rat)[i] by {
                assert(votes@[i].bview() == ScoreBallot::<5>::fill_view(rat[i]));
                assert(ScoreBallot::<5>::fill_view(rat[i]) =~= star_ballot_views(rat)[i]);
            }
            assert(ballot_views(votes@) =~= star_ballot_views(rat));
        }
        StarResult {
            winner,
            winner_index: w,
            total_votes: option_ratings.len(),
            runoff: Runoff {
                a: RunoffTally { option_index: a, votes: va },
                b: RunoffTally { option_index: b, votes: vb },
            },
            score_tally,
            bundles,
        }
    }
}

} // verus!
