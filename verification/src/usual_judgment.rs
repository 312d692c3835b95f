//! Usual (majority) judgment: every voter scores every option on a 0..=6
//! scale.  Each option's majority grade is the lowest grade at which the
//! cumulative count from the bottom reaches half the ballots; the options
//! sharing the highest majority grade are the finalists.  A tie between
//! finalists is broken by the proportions of ballots strictly above (`p`)
//! and strictly below (`q`) the majority grade: first the larger `p - q`
//! wins, then, at equal `p - q`, the larger `p + q` when `p - q` is
//! positive and the smaller `p + q` when it is negative.  This orders the
//! finalists exactly as comparing `p^n - q^n` for growing `n` would;
//! whatever still ties goes to the lowest option index.

use vstd::prelude::*;
use crate::ballots::{fill, score_of, ScoreBallot, VotingMethod};
use crate::bundles::{
    ballot_views, bundles_group, bundles_sorted, total_bundle_votes, vote_bundle, VoteBundle,
};
use crate::election::ElectionOption;
use crate::ratings::{find_rating, OptionRating};
use crate::score_count::{
    cum_tallies, get_score_counts, lemma_cum_eq_le, lemma_cum_mono, lemma_le_bounds,
    mg_from_tallies, score_eq_at, score_le_at, tally_majority, ScoreCount,
};
use crate::tallies::{all_complete, ratings_view};

verus! {

/// The 0..=6 score ballots each voter would cast, one view per voter.
pub open spec fn uj_ballot_views(rat: Seq<Seq<OptionRating>>) -> Seq<Seq<int>> {
    Seq::new(rat.len(), |i: int| Seq::new(rat[i].len(), |j: int| score_of(6, find_rating(rat[i], j))))
}

pub open spec fn uj_mg_from(vs: Seq<Seq<int>>, j: int, total: int, g: int) -> int
    decreases 7 - g,
{
    if g >= 6 {
        6
    } else if 2 * score_le_at(vs, j, g) >= total {
        g
    } else {
        uj_mg_from(vs, j, total, g + 1)
    }
}

/// Option `j`'s majority grade.
pub open spec fn uj_mg(vs: Seq<Seq<int>>, j: int, total: int) -> int {
    uj_mg_from(vs, j, total, 0)
}

/// Ballots scoring option `j` strictly above its majority grade.
pub open spec fn uj_above(vs: Seq<Seq<int>>, j: int, total: int) -> int {
    total - score_le_at(vs, j, uj_mg(vs, j, total))
}

/// Ballots scoring option `j` strictly below its majority grade.
pub open spec fn uj_below(vs: Seq<Seq<int>>, j: int, total: int) -> int {
    score_le_at(vs, j, uj_mg(vs, j, total) - 1) as int
}

pub open spec fn uj_d(vs: Seq<Seq<int>>, j: int, total: int) -> int {
    uj_above(vs, j, total) - uj_below(vs, j, total)
}

pub open spec fn uj_t(vs: Seq<Seq<int>>, j: int, total: int) -> int {
    let d = uj_d(vs, j, total);
    let s = uj_above(vs, j, total) + uj_below(vs, j, total);
    if d > 0 {
        s
    } else if d < 0 {
        -s
    } else {
        0
    }
}

/// `j1` beats `j2` in the tie-break.
pub open spec fn uj_better(vs: Seq<Seq<int>>, total: int, j1: int, j2: int) -> bool {
    uj_d(vs, j1, total) > uj_d(vs, j2, total) || (uj_d(vs, j1, total) == uj_d(vs, j2, total)
        && uj_t(vs, j1, total) > uj_t(vs, j2, total))
}

pub struct UsualJudgmentResult {
    pub winner: ElectionOption,
    pub winner_index: usize,
    pub total_votes: usize,
    pub bundles: Vec<VoteBundle<ScoreBallot<6>>>,
    pub counts: Vec<ScoreCount<6>>,
}

/// What a Usual Judgment result must look like: faithful per-option score
/// statistics, a winner whose majority grade no option beats, which no
/// equally-graded option beats in the tie-break, and which beats every
/// equally-graded lower-index option; and bundles faithfully grouping all
/// cast ballots.
pub open spec fn uj_valid(
    r: UsualJudgmentResult,
    options: Seq<ElectionOption>,
    rat: Seq<Seq<OptionRating>>,
) -> bool {
    let vs = uj_ballot_views(rat);
    let total = rat.len() as int;
    let n = options.len() as int;
    let w = r.winner_index as int;
    &&& r.total_votes == rat.len()
    &&& r.counts@.len() == n
    &&& forall|j: int| 0 <= j < n ==> (#[trigger] r.counts@[j]).valid_for(vs, j)
    &&& 0 <= w < n
    &&& forall|j: int| 0 <= j < n ==> #[trigger] uj_mg(vs, j, total) <= uj_mg(vs, w, total)
    &&& forall|j: int|
        0 <= j < n && j != w && #[trigger] uj_mg(vs, j, total) == uj_mg(vs, w, total)
            ==> !uj_better(vs, total, j, w)
    &&& forall|j: int|
        0 <= j < w && #[trigger] uj_mg(vs, j, total) == uj_mg(vs, w, total) ==> uj_better(
            vs,
            total,
            w,
            j,
        )
    &&& r.winner@ == options[w]@
    &&& bundles_group(r.bundles@, vs)
    &&& bundles_sorted(r.bundles@)
    &&& total_bundle_votes(r.bundles@) == rat.len()
}

/// A histogram carrying option `j`'s exact counts yields the same majority
/// grade as the ballots themselves.
proof fn lemma_uj_mg_from_agree(t: Seq<usize>, vs: Seq<Seq<int>>, j: int, total: int, g: int)
    requires
        t.len() == 7,
        0 <= g <= 6,
        forall|g2: int| 0 <= g2 < 7 ==> (#[trigger] t[g2]) == score_eq_at(vs, j, g2),
        forall|i: int| 0 <= i < vs.len() ==> 0 <= #[trigger] vs[i][j] <= 6,
    ensures
        mg_from_tallies(t, total, g) == uj_mg_from(vs, j, total, g),
    decreases 7 - g,
{
    if g < 6 {
        lemma_cum_eq_le(t, vs, j, g, 6);
        lemma_uj_mg_from_agree(t, vs, j, total, g + 1);
    }
}

fn cum_exec(t: &Vec<usize>, g: usize) -> (s: usize)
    requires
        g < t@.len(),
        g < 1000,
        cum_tallies(t@, t@.len() - 1) <= 0x1000_0000,
    ensures
        s == cum_tallies(t@, g as int),
{
    let mut s: usize = 0;
    let mut k: usize = 0;
    while k <= g
        invariant
            k <= g + 1,
            g < 1000,
            g < t@.len(),
            cum_tallies(t@, t@.len() - 1) <= 0x1000_0000,
            s == cum_tallies(t@, k - 1),
        decreases g + 1 - k,
    {
        proof {
            lemma_cum_mono(t@, k as int, t@.len() - 1);
        }
        s = s + t[k];
        k = k + 1;
    }
    s
}

/// The indices of the options sharing the highest majority grade, in
/// ascending order.
pub fn get_highest_majority_grade(counts: &Vec<ScoreCount<6>>) -> (r: Vec<usize>)
    requires
        counts@.len() >= 1,
        forall|j: int|
            0 <= j < counts@.len() ==> {
                let c = #[trigger] counts@[j];
                &&& c.tallies@.len() == 7
                &&& cum_tallies(c.tallies@, 6) == c.scores@.len()
                &&& 1 <= c.scores@.len() <= 0x1000_0000
            },
    ensures
        r@.len() >= 1,
        forall|i1: int, i2: int| 0 <= i1 < i2 < r@.len() ==> (#[trigger] r@[i1]) < (#[trigger] r@[i2]),
        forall|i: int|
            0 <= i < r@.len() ==> (#[trigger] r@[i]) < counts@.len() && count_mg(counts@, r@[i] as int)
                == count_mg(counts@, r@[0] as int),
        forall|j: int| 0 <= j < counts@.len() ==> #[trigger] count_mg(counts@, j) <= count_mg(
            counts@,
            r@[0] as int,
        ),
        forall|j: int|
            0 <= j < counts@.len() && #[trigger] count_mg(counts@, j) == count_mg(counts@, r@[0] as int)
                ==> r@.contains(j as usize),
{
    let mut majorities: Vec<usize> = Vec::new();
    let mut j: usize = 0;
    while j < counts.len()
        invariant
            j <= counts@.len(),
            forall|j2: int|
                0 <= j2 < counts@.len() ==> {
                    let c = #[trigger] counts@[j2];
                    &&& c.tallies@.len() == 7
                    &&& cum_tallies(c.tallies@, 6) == c.scores@.len()
                    &&& 1 <= c.scores@.len() <= 0x1000_0000
                },
            majorities@.len() == j,
            forall|j2: int| 0 <= j2 < j ==> (#[trigger] majorities@[j2]) as int == count_mg(counts@, j2),
        decreases counts@.len() - j,
    {
        majorities.push(counts[j].majority());
        j = j + 1;
    }
    let mut best: usize = 0;
    let mut k: usize = 1;
    while k < counts.len()
        invariant
            best < k <= counts@.len(),
            majorities@.len() == counts@.len(),
            forall|j2: int| 0 <= j2 < counts@.len() ==> (#[trigger] majorities@[j2]) as int == count_mg(counts@, j2),
            forall|j2: int| 0 <= j2 < k ==> #[trigger] count_mg(counts@, j2) <= count_mg(counts@, best as int),
        decreases counts@.len() - k,
    {
        if majorities[k] > majorities[best] {
            best = k;
        }
        k = k + 1;
    }
    let mut r: Vec<usize> = Vec::new();
    let mut j2: usize = 0;
    while j2 < counts.len()
        invariant
            j2 <= counts@.len(),
            best < counts@.len(),
            majorities@.len() == counts@.len(),
            forall|j3: int| 0 <= j3 < counts@.len() ==> (#[trigger] majorities@[j3]) as int == count_mg(counts@, j3),
            forall|j3: int| 0 <= j3 < counts@.len() ==> #[trigger] count_mg(counts@, j3) <= count_mg(counts@, best as int),
            forall|i1: int, i2: int| 0 <= i1 < i2 < r@.len() ==> (#[trigger] r@[i1]) < (#[trigger] r@[i2]),
            forall|i: int|
                0 <= i < r@.len() ==> (#[trigger] r@[i]) < j2 && count_mg(counts@, r@[i] as int)
                    == count_mg(counts@, best as int),
            forall|j3: int|
                0 <= j3 < j2 && #[trigger] count_mg(counts@, j3) == count_mg(counts@, best as int)
                    ==> r@.contains(j3 as usize),
            best < j2 ==> r@.len() >= 1 && count_mg(counts@, r@[0] as int) == count_mg(
                counts@,
                best as int,
            ),
        decreases counts@.len() - j2,
    {
        if majorities[j2] == majorities[best] {
            let ghost pre = r@;
            r.push(j2);
            proof {
                assert forall|j3: int|
                    0 <= j3 < j2 + 1 && #[trigger] count_mg(counts@, j3) == count_mg(
                        counts@,
                        best as int,
                    ) implies r@.contains(j3 as usize) by {
                    if j3 < j2 {
                        assert(pre.contains(j3 as usize));
                        let i = choose|i: int| 0 <= i < pre.len() && pre[i] == j3 as usize;
                        assert(r@[i] == j3 as usize);
                    } else {
                        assert(r@[r@.len() - 1] == j3 as usize);
                    }
                }
            }
        } else {
            proof {
                assert forall|j3: int|
                    0 <= j3 < j2 + 1 && #[trigger] count_mg(counts@, j3) == count_mg(
                        counts@,
                        best as int,
                    ) implies r@.contains(j3 as usize) by {
                    assert(j3 != j2);
                }
            }
        }
        j2 = j2 + 1;
    }
    proof {
        assert(count_mg(counts@, best as int) == count_mg(counts@, best as int));
        assert(r@.contains(best));
    }
    r
}

/// The majority grade recorded in one option's score statistics.
pub open spec fn count_mg(counts: Seq<ScoreCount<6>>, j: int) -> int {
    tally_majority(counts[j].tallies@, counts[j].scores@.len() as int)
}

pub fn result(options: &Vec<ElectionOption>, option_ratings: &Vec<Vec<OptionRating>>) -> (r:
    UsualJudgmentResult)
    requires
        options@.len() >= 1,
        1 <= option_ratings@.len() <= 0x1000_0000,
        all_complete(ratings_view(option_ratings@), options@.len() as int),
    ensures
        uj_valid(r, options@, ratings_view(option_ratings@)),
{
    let ghost rat = ratings_view(option_ratings@);
    let ghost vs = uj_ballot_views(rat);
    let n = options.len();
    let total = option_ratings.len();
    proof {
        assert forall|i: int| 0 <= i < option_ratings@.len() implies ScoreBallot::<6>::valid_fill(
            (#[trigger] option_ratings@[i])@,
        ) by {
            assert(rat[i] == option_ratings@[i]@);
        }
    }
    let votes: Vec<ScoreBallot<6>> = fill(option_ratings);
    proof {
        assert forall|i: int| 0 <= i < rat.len() implies #[trigger] ballot_views(votes@)[i]
            == vs[i] by {
            assert(votes@[i].bview() == ScoreBallot::<6>::fill_view(rat[i]));
            assert(ScoreBallot::<6>::fill_view(rat[i]) =~= vs[i]);
        }
        assert(ballot_views(votes@) =~= vs);
        assert forall|i: int| 0 <= i < votes@.len() implies (#[trigger] votes@[i]).votes@.len()
            == n by {
            assert(votes@[i].bview() == ScoreBallot::<6>::fill_view(rat[i]));
            assert(votes@[i].bview().len() == votes@[i].votes@.len());
            assert(ScoreBallot::<6>::fill_view(rat[i]).len() == rat[i].len());
            assert(rat[i].len() == n);
        }
        assert(votes@[0].votes@.len() == n);
        assert forall|i: int, j: int|
            0 <= i < votes@.len() && 0 <= j < votes@[0].votes@.len() implies 0 <= (
            #[trigger] votes@[i].votes@[j]) <= 6 by {
            assert(vs[i][j] == votes@[i].votes@[j] as int);
            crate::ballots::lemma_score_from_bounds(6, 6, find_rating(rat[i], j));
        }
    }
    let bundles = vote_bundle(&votes);
    let counts = get_score_counts(&votes);
    proof {
        assert(votes@[0].votes@.len() == n);
        assert forall|i: int, j: int| 0 <= i < vs.len() && 0 <= j < n implies 0 <= #[trigger] vs[i][j]
            <= 6 by {
            crate::ballots::lemma_score_from_bounds(6, 6, find_rating(rat[i], j));
        }
        assert forall|j: int| 0 <= j < n implies cum_tallies((#[trigger] counts@[j]).tallies@, 6)
            == total && counts@[j].scores@.len() == total by {
            lemma_cum_eq_le(counts@[j].tallies@, vs, j, 6, 6);
            lemma_le_bounds(vs, j, 6);
        }
    }
    // Each option's majority grade.
    let mut majorities: Vec<usize> = Vec::new();
    let mut j: usize = 0;
    while j < n
        invariant
            j <= n,
            counts@.len() == n,
            vs == uj_ballot_views(rat),
            total == rat.len(),
            1 <= total <= 0x1000_0000,
            forall|j2: int| 0 <= j2 < n ==> (#[trigger] counts@[j2]).valid_for(vs, j2),
            forall|j2: int|
                0 <= j2 < n ==> cum_tallies((#[trigger] counts@[j2]).tallies@, 6) == total
                    && counts@[j2].scores@.len() == total,
            forall|i: int, j2: int| 0 <= i < vs.len() && 0 <= j2 < n ==> 0 <= #[trigger] vs[i][j2] <= 6,
            majorities@.len() == j,
            forall|j2: int|
                0 <= j2 < j ==> (#[trigger] majorities@[j2]) as int == uj_mg(vs, j2, total as int)
                    && majorities@[j2] < 7,
        decreases n - j,
    {
        let m = counts[j].majority();
        proof {
            lemma_uj_mg_from_agree(counts@[j as int].tallies@, vs, j as int, total as int, 0);
        }
        majorities.push(m);
        j = j + 1;
    }
    // The first option with the top majority grade.
    let mut w: usize = 0;
    let mut k: usize = 1;
    while k < n
        invariant
            w < k <= n,
            majorities@.len() == n,
            forall|j2: int|
                0 <= j2 < n ==> (#[trigger] majorities@[j2]) as int == uj_mg(vs, j2, total as int)
                    && majorities@[j2] < 7,
            forall|j2: int|
                0 <= j2 < k ==> #[trigger] uj_mg(vs, j2, total as int) <= uj_mg(vs, w as int, total as int),
            forall|j2: int|
                0 <= j2 < w ==> #[trigger] uj_mg(vs, j2, total as int) < uj_mg(vs, w as int, total as int),
        decreases n - k,
    {
        if majorities[k] > majorities[w] {
            w = k;
        }
        k = k + 1;
    }
    // The tie-break among the options sharing that grade.
    let le_w = cum_exec(&counts[w].tallies, majorities[w]);
    let le_w1 = if majorities[w] == 0 {
        0
    } else {
        cum_exec(&counts[w].tallies, majorities[w] - 1)
    };
    proof {
        lemma_cum_eq_le(counts@[w as int].tallies@, vs, w as int, majorities@[w as int] as int, 6);
        lemma_cum_mono(counts@[w as int].tallies@, majorities@[w as int] as int, 6);
        if majorities@[w as int] == 0 {
            lemma_le_bounds(vs, w as int, 6);
        } else {
            lemma_cum_eq_le(
                counts@[w as int].tallies@,
                vs,
                w as int,
                majorities@[w as int] - 1,
                6,
            );
        }
    }
    let mut dw: i64 = (total - le_w) as i64 - le_w1 as i64;
    let mut tw: i64 = if dw > 0 {
        (total - le_w) as i64 + le_w1 as i64
    } else if dw < 0 {
        -((total - le_w) as i64 + le_w1 as i64)
    } else {
        0
    };
    let ghost w0 = w as int;
    let mut k2: usize = w + 1;
    while k2 < n
        invariant
            w < k2 <= n,
            w0 <= w,
            counts@.len() == n,
            majorities@.len() == n,
            total == rat.len(),
            1 <= total <= 0x1000_0000,
            vs == uj_ballot_views(rat),
            forall|j2: int| 0 <= j2 < n ==> (#[trigger] counts@[j2]).valid_for(vs, j2),
            forall|j2: int|
                0 <= j2 < n ==> cum_tallies((#[trigger] counts@[j2]).tallies@, 6) == total
                    && counts@[j2].scores@.len() == total,
            forall|i: int, j2: int| 0 <= i < vs.len() && 0 <= j2 < n ==> 0 <= #[trigger] vs[i][j2] <= 6,
            forall|j2: int|
                0 <= j2 < n ==> (#[trigger] majorities@[j2]) as int == uj_mg(vs, j2, total as int)
                    && majorities@[j2] < 7,
            forall|j2: int|
                0 <= j2 < n ==> #[trigger] uj_mg(vs, j2, total as int) <= uj_mg(vs, w as int, total as int),
            uj_mg(vs, w as int, total as int) == uj_mg(vs, w0, total as int),
            dw as int == uj_d(vs, w as int, total as int),
            tw as int == uj_t(vs, w as int, total as int),
            forall|j2: int|
                0 <= j2 < k2 && j2 != w && #[trigger] uj_mg(vs, j2, total as int) == uj_mg(
                    vs,
                    w as int,
                    total as int,
                ) ==> !uj_better(vs, total as int, j2, w as int),
            forall|j2: int|
                0 <= j2 < w && #[trigger] uj_mg(vs, j2, total as int) == uj_mg(
                    vs,
                    w as int,
                    total as int,
                ) ==> uj_better(vs, total as int, w as int, j2),
        decreases n - k2,
    {
        if majorities[k2] == majorities[w] {
            let le_k = cum_exec(&counts[k2].tallies, majorities[k2]);
            let le_k1 = if majorities[k2] == 0 {
                0
            } else {
                cum_exec(&counts[k2].tallies, majorities[k2] - 1)
            };
            proof {
                lemma_cum_eq_le(
                    counts@[k2 as int].tallies@,
                    vs,
                    k2 as int,
                    majorities@[k2 as int] as int,
                    6,
                );
                lemma_cum_mono(counts@[k2 as int].tallies@, majorities@[k2 as int] as int, 6);
                if majorities@[k2 as int] == 0 {
                    lemma_le_bounds(vs, k2 as int, 6);
                } else {
                    lemma_cum_eq_le(
                        counts@[k2 as int].tallies@,
                        vs,
                        k2 as int,
                        majorities@[k2 as int] - 1,
                        6,
                    );
                }
            }
            let dk: i64 = (total - le_k) as i64 - le_k1 as i64;
            let tk: i64 = if dk > 0 {
                (total - le_k) as i64 + le_k1 as i64
            } else if dk < 0 {
                -((total - le_k) as i64 + le_k1 as i64)
            } else {
                0
            };
            if dk > dw || (dk == dw && tk > tw) {
                let ghost ow = w as int;
                w = k2;
                dw = dk;
                tw = tk;
                proof {
                    assert(uj_better(vs, total as int, w as int, ow));
                    assert forall|j2: int|
                        0 <= j2 < k2 + 1 && j2 != w && #[trigger] uj_mg(vs, j2, total as int)
                            == uj_mg(vs, w as int, total as int) implies !uj_better(
                        vs,
                        total as int,
                        j2,
                        w as int,
                    ) by {
                        if j2 != ow {
                            assert(!uj_better(vs, total as int, j2, ow));
                        }
                    }
                    assert forall|j2: int|
                        0 <= j2 < w && #[trigger] uj_mg(vs, j2, total as int) == uj_mg(
                            vs,
                            w as int,
                            total as int,
                        ) implies uj_better(vs, total as int, w as int, j2) by {
                        if j2 != ow {
                            assert(!uj_better(vs, total as int, j2, ow));
                        }
                    }
                }
            }
        }
        k2 = k2 + 1;
    }
    let winner = options[w].clone();
    proof {
        assert(bundles_group(bundles@, vs));
    }
    UsualJudgmentResult {
        winner,
        winner_index: w,
        total_votes: total,
        bundles,
        counts,
    }
}

} // verus!
