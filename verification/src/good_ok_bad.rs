//! Good-Ok-Bad: every voter grades every option Good, Ok or Bad.  The three
//! options with the most Good grades (ties to the lower index) are narrowed
//! to the two with the fewest Bad grades (ties keep the Good-count order),
//! and a runoff between those two counts the voters who grade one finalist
//! strictly above the other.  The finalist with more runoff votes wins; a
//! tied runoff goes to the second finalist.  The per-option breakdown is
//! kept in option order.

use vstd::prelude::*;
use crate::ballots::{fill, grade_of, GoodBadOkBallot, GoodOkBad, VotingMethod};
use crate::bundles::{
    ballot_views, bundles_group, bundles_sorted, total_bundle_votes, vote_bundle, VoteBundle,
};
use crate::election::ElectionOption;
use crate::ratings::{find_rating, OptionRating};
use crate::tallies::{
    all_complete, grade_count, grade_prefers_count, rating_for, ratings_view,
};

verus! {

/// One option's grade counts.
pub struct GoodOkBadTally {
    pub option_index: usize,
    pub good: usize,
    pub ok: usize,
    pub bad: usize,
}

/// One finalist's runoff vote count.
pub struct RunoffTally {
    pub option_index: usize,
    pub votes: usize,
}

/// The two finalists' runoff outcome: `a` is the finalist with fewer Bad
/// grades.
pub struct Runoff {
    pub a: RunoffTally,
    pub b: RunoffTally,
}

pub open spec fn good_of(rat: Seq<Seq<OptionRating>>, j: int) -> nat {
    grade_count(rat, j, 2)
}

pub open spec fn bad_of(rat: Seq<Seq<OptionRating>>, j: int) -> nat {
    grade_count(rat, j, 0)
}

/// The lowest-index option among `0..k` (excluding `e1` and `e2`) with the
/// most Good grades; `-1` when every option in range is excluded.
pub open spec fn gob_best(rat: Seq<Seq<OptionRating>>, k: int, e1: int, e2: int) -> int
    decreases k,
{
    if k <= 0 {
        -1
    } else {
        let p = gob_best(rat, k - 1, e1, e2);
        let j = k - 1;
        if j == e1 || j == e2 {
            p
        } else if p == -1 || good_of(rat, j) > good_of(rat, p) {
            j
        } else {
            p
        }
    }
}

/// The three options with the most Good grades, in selection order.
pub open spec fn gob_top_three(rat: Seq<Seq<OptionRating>>, n: int) -> (int, int, int) {
    let c1 = gob_best(rat, n, -1, -1);
    let c2 = gob_best(rat, n, c1, -1);
    let c3 = gob_best(rat, n, c1, c2);
    (c1, c2, c3)
}

/// The runoff finalists: of the top three, the two with the fewest Bad
/// grades, ties keeping selection order.
pub open spec fn gob_finalists(rat: Seq<Seq<OptionRating>>, n: int) -> (int, int) {
    let (c1, c2, c3) = gob_top_three(rat, n);
    if bad_of(rat, c1) <= bad_of(rat, c2) && bad_of(rat, c1) <= bad_of(rat, c3) {
        (c1, if bad_of(rat, c2) <= bad_of(rat, c3) {
            c2
        } else {
            c3
        })
    } else if bad_of(rat, c2) <= bad_of(rat, c3) {
        (c2, if bad_of(rat, c1) <= bad_of(rat, c3) {
            c1
        } else {
            c3
        })
    } else {
        (c3, if bad_of(rat, c1) <= bad_of(rat, c2) {
            c1
        } else {
            c2
        })
    }
}

/// The tri-level ballots each voter would cast, one view per voter.
pub open spec fn gob_ballot_views(rat: Seq<Seq<OptionRating>>) -> Seq<Seq<int>> {
    Seq::new(rat.len(), |i: int| Seq::new(rat[i].len(), |j: int| grade_of(find_rating(rat[i], j))))
}

pub struct GoodOkBadResult {
    pub winner: ElectionOption,
    pub winner_index: usize,
    pub total_votes: usize,
    pub tally: Vec<GoodOkBadTally>,
    pub runoff: Runoff,
    pub bundles: Vec<VoteBundle<GoodBadOkBallot>>,
}

/// What a Good-Ok-Bad result must look like: grade counts per option in
/// option order, the finalists chosen as documented above, the runoff
/// counting the voters who grade one finalist strictly above the other, the
/// winner decided by the runoff with ties going to the second finalist, and
/// the bundles faithfully grouping all cast ballots.
pub open spec fn gob_valid(
    r: GoodOkBadResult,
    options: Seq<ElectionOption>,
    rat: Seq<Seq<OptionRating>>,
) -> bool {
    let n = options.len() as int;
    let a = r.runoff.a.option_index as int;
    let b = r.runoff.b.option_index as int;
    &&& r.total_votes == rat.len()
    &&& r.tally@.len() == options.len()
    &&& forall|j: int|
        0 <= j < n ==> {
            let t = #[trigger] r.tally@[j];
            t.option_index == j && t.good == grade_count(rat, j, 2) && t.ok == grade_count(
                rat,
                j,
                1,
            ) && t.bad == grade_count(rat, j, 0)
        }
    &&& (a, b) == gob_finalists(rat, n)
    &&& r.runoff.a.votes == grade_prefers_count(rat, a, b)
    &&& r.runoff.b.votes == grade_prefers_count(rat, b, a)
    &&& r.winner_index as int == (if r.runoff.a.votes > r.runoff.b.votes {
        a
    } else {
        b
    })
    &&& r.winner@ == options[r.winner_index as int]@
    &&& bundles_group(r.bundles@, gob_ballot_views(rat))
    &&& bundles_sorted(r.bundles@)
    &&& total_bundle_votes(r.bundles@) == rat.len()
}

/// The scan's candidate is either `-1` or a non-excluded option in range.
pub proof fn lemma_gob_best_range(rat: Seq<Seq<OptionRating>>, k: int, e1: int, e2: int)
    requires
        k >= 0,
    ensures
        gob_best(rat, k, e1, e2) == -1 || (0 <= gob_best(rat, k, e1, e2) < k && gob_best(
            rat,
            k,
            e1,
            e2,
        ) != e1 && gob_best(rat, k, e1, e2) != e2),
    decreases k,
{
    if k > 0 {
        lemma_gob_best_range(rat, k - 1, e1, e2);
    }
}

pub struct GoodOkBadElection;

impl GoodOkBadElection {
    pub fn result(options: &Vec<ElectionOption>, option_ratings: &Vec<Vec<OptionRating>>) -> (r:
        GoodOkBadResult)
        requires
            options@.len() >= 3,
            option_ratings@.len() >= 1,
            all_complete(ratings_view(option_ratings@), options@.len() as int),
        ensures
            gob_valid(r, options@, ratings_view(option_ratings@)),
    {
        let ghost rat = ratings_view(option_ratings@);
        let n = options.len();
        let mut tally: Vec<GoodOkBadTally> = Vec::new();
        let mut j: usize = 0;
        while j < n
            invariant
                j <= n,
                n == options@.len(),
                rat == ratings_view(option_ratings@),
                all_complete(rat, n as int),
                n >= 3,
                tally@.len() == j,
                forall|t: int|
                    0 <= t < j ==> {
                        let e = #[trigger] tally@[t];
                        e.option_index == t && e.good == grade_count(rat, t, 2) && e.ok
                            == grade_count(rat, t, 1) && e.bad == grade_count(rat, t, 0)
                    },
            decreases n - j,
        {
            let mut good: usize = 0;
            let mut ok: usize = 0;
            let mut bad: usize = 0;
            let mut i: usize = 0;
            while i < option_ratings.len()
                invariant
                    i <= rat.len(),
                    rat == ratings_view(option_ratings@),
                    all_complete(rat, n as int),
                    j < n,
                    good <= i,
                    ok <= i,
                    bad <= i,
                    good == grade_count(rat.take(i as int), j as int, 2),
                    ok == grade_count(rat.take(i as int), j as int, 1),
                    bad == grade_count(rat.take(i as int), j as int, 0),
                decreases rat.len() - i,
            {
                proof {
                    assert(rat.take(i + 1).drop_last() =~= rat.take(i as int));
                    assert(rat.take(i + 1).last() == rat[i as int]);
                    assert(rat[i as int] == option_ratings@[i as int]@);
                }
                let g = GoodOkBad::from_rating(rating_for(&option_ratings[i], j));
                match g {
                    GoodOkBad::Good => {
                        good = good + 1;
                    },
                    GoodOkBad::Okay => {
                        ok = ok + 1;
                    },
                    GoodOkBad::Bad => {
                        bad = bad + 1;
                    },
                }
                i = i + 1;
            }
            proof {
                assert(rat.take(rat.len() as int) =~= rat);
            }
            tally.push(GoodOkBadTally { option_index: j, good, ok, bad });
            j = j + 1;
        }
        // The three options with the most Good grades, lowest index first on
        // ties.
        let c1 = Self::best_by_good(&tally, n, n, n);
        proof {
            lemma_gob_best_agree(tally@, rat, n as int, -1, -1);
            lemma_gob_best_range(rat, n as int, -1, -1);
        }
        let c2 = Self::best_by_good(&tally, n, c1, n);
        proof {
            lemma_gob_best_agree(tally@, rat, n as int, c1 as int, -1);
            lemma_gob_best_range(rat, n as int, c1 as int, -1);
        }
        let c3 = Self::best_by_good(&tally, n, c1, c2);
        proof {
            lemma_gob_best_agree(tally@, rat, n as int, c1 as int, c2 as int);
            lemma_gob_best_range(rat, n as int, c1 as int, c2 as int);
        }
        // Of those three, the two with the fewest Bad grades.
        let bad1 = tally[c1].bad;
        let bad2 = tally[c2].bad;
        let bad3 = tally[c3].bad;
        let (a, b) = if bad1 <= bad2 && bad1 <= bad3 {
            (c1, if bad2 <= bad3 {
                c2
            } else {
                c3
            })
        } else if bad2 <= bad3 {
            (c2, if bad1 <= bad3 {
                c1
            } else {
                c3
            })
        } else {
            (c3, if bad1 <= bad2 {
                c1
            } else {
                c2
            })
        };
        // Runoff: count the voters who grade one finalist above the other.
        let mut va: usize = 0;
        let mut vb: usize = 0;
        let mut i2: usize = 0;
        while i2 < option_ratings.len()
            invariant
                i2 <= rat.len(),
                rat == ratings_view(option_ratings@),
                all_complete(rat, n as int),
                n == options@.len(),
                a < n,
                b < n,
                va <= i2,
                vb <= i2,
                va == grade_prefers_count(rat.take(i2 as int), a as int, b as int),
                vb == grade_prefers_count(rat.take(i2 as int), b as int, a as int),
            decreases rat.len() - i2,
        {
            proof {
                assert(rat.take(i2 + 1).drop_last() =~= rat.take(i2 as int));
                assert(rat.take(i2 + 1).last() == rat[i2 as int]);
                assert(rat[i2 as int] == option_ratings@[i2 as int]@);
            }
            let ga = GoodOkBad::from_rating(rating_for(&option_ratings[i2], a)).ordinal();
            let gb = GoodOkBad::from_rating(rating_for(&option_ratings[i2], b)).ordinal();
            if ga > gb {
                va = va + 1;
            } else if gb > ga {
                vb = vb + 1;
            }
            i2 = i2 + 1;
        }
        proof {
            assert(rat.take(rat.len() as int) =~= rat);
        }
        let w = if va > vb {
            a
        } else {
            b
        };
        let winner = options[w].clone();
        proof {
            assert forall|i: int| 0 <= i < option_ratings@.len() implies GoodBadOkBallot::valid_fill(
                (#[trigger] option_ratings@[i])@,
            ) by {
                assert(rat[i] == option_ratings@[i]@);
            }
        }
        let votes: Vec<GoodBadOkBallot> = fill(option_ratings);
        let bundles = vote_bundle(&votes);
        proof {
            assert forall|i: int| 0 <= i < rat.len() implies #[trigger] ballot_views(votes@)[i]
                == gob_ballot_views(rat)[i] by {
                assert(votes@[i].bview() == GoodBadOkBallot::fill_view(rat[i]));
                assert(GoodBadOkBallot::fill_view(rat[i]) =~= gob_ballot_views(rat)[i]);
            }
            assert(ballot_views(votes@) =~= gob_ballot_views(rat));
        }
        GoodOkBadResult {
            winner,
            winner_index: w,
            total_votes: option_ratings.len(),
            tally,
            runoff: Runoff {
                a: RunoffTally { option_index: a, votes: va },
                b: RunoffTally { option_index: b, votes: vb },
            },
            bundles,
        }
    }

    /// Scan for the lowest-index non-excluded option with the most Good
    /// grades.  `e1`/`e2` equal to `n` mean no exclusion.
    fn best_by_good(tally: &Vec<GoodOkBadTally>, n: usize, e1: usize, e2: usize) -> (c: usize)
        requires
            tally@.len() == n,
            n >= 3,
            e1 <= n,
            e2 <= n,
            e1 == n || e2 == n || e1 != e2,
        ensures
            c < n,
            c as int == gob_best_of(tally@, n as int, if e1 == n {
                -1
            } else {
                e1 as int
            }, if e2 == n {
                -1
            } else {
                e2 as int
            }),
    {
        let ghost ge1: int = if e1 == n {
            -1
        } else {
            e1 as int
        };
        let ghost ge2: int = if e2 == n {
            -1
        } else {
            e2 as int
        };
        let mut found: bool = false;
        let mut p: usize = 0;
        let mut k: usize = 0;
        while k < n
            invariant
                k <= n,
                tally@.len() == n,
                ge1 == (if e1 == n { -1int } else { e1 as int }),
                ge2 == (if e2 == n { -1int } else { e2 as int }),
                found ==> p < k && gob_best_of(tally@, k as int, ge1, ge2) == p,
                !found ==> gob_best_of(tally@, k as int, ge1, ge2) == -1,
            decreases n - k,
        {
            if k != e1 && k != e2 {
                if !found || tally[k].good > tally[p].good {
                    p = k;
                    found = true;
                }
            }
            k = k + 1;
        }
        proof {
            lemma_gob_best_of_found(tally@, n as int, ge1, ge2);
        }
        p
    }
}

/// `gob_best` computed from a tally list instead of the rating vectors.
pub open spec fn gob_best_of(tally: Seq<GoodOkBadTally>, k: int, e1: int, e2: int) -> int
    decreases k,
{
    if k <= 0 {
        -1
    } else {
        let p = gob_best_of(tally, k - 1, e1, e2);
        let j = k - 1;
        if j == e1 || j == e2 {
            p
        } else if p == -1 || tally[j].good > tally[p].good {
            j
        } else {
            p
        }
    }
}

proof fn lemma_gob_best_of_up(tally: Seq<GoodOkBadTally>, k: int, n: int, e1: int, e2: int)
    requires
        0 <= k <= n,
        gob_best_of(tally, k, e1, e2) != -1,
    ensures
        gob_best_of(tally, n, e1, e2) != -1,
    decreases n - k,
{
    if k < n {
        lemma_gob_best_of_up(tally, k + 1, n, e1, e2);
    }
}

proof fn lemma_gob_best_of_found(tally: Seq<GoodOkBadTally>, n: int, e1: int, e2: int)
    requires
        n >= 3,
        e1 == -1 || e2 == -1 || e1 != e2,
    ensures
        gob_best_of(tally, n, e1, e2) != -1,
{
    if e1 != 0 && e2 != 0 {
        assert(gob_best_of(tally, 1, e1, e2) != -1);
        lemma_gob_best_of_up(tally, 1, n, e1, e2);
    } else if e1 != 1 && e2 != 1 {
        assert(gob_best_of(tally, 2, e1, e2) != -1);
        lemma_gob_best_of_up(tally, 2, n, e1, e2);
    } else {
        assert(gob_best_of(tally, 3, e1, e2) != -1);
        lemma_gob_best_of_up(tally, 3, n, e1, e2);
    }
}

/// Whenever a tally list carries the Good counts of the rating vectors, the
/// two selection scans agree.
proof fn lemma_gob_best_agree(
    tally: Seq<GoodOkBadTally>,
    rat: Seq<Seq<OptionRating>>,
    k: int,
    e1: int,
    e2: int,
)
    requires
        0 <= k <= tally.len(),
        forall|j: int| 0 <= j < k ==> (#[trigger] tally[j]).good == good_of(rat, j),
    ensures
        gob_best_of(tally, k, e1, e2) == gob_best(rat, k, e1, e2),
    decreases k,
{
    if k > 0 {
        lemma_gob_best_agree(tally, rat, k - 1, e1, e2);
        lemma_gob_best_range(rat, k - 1, e1, e2);
    }
}

} // verus!
