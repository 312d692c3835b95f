//! Per-option score statistics for score-scale methods: the sorted list of
//! all scores an option received, a histogram of them, and the majority
//! grade read off the histogram.

use vstd::prelude::*;
use crate::ballots::{ScoreBallot, VotingMethod};
use crate::bundles::ballot_views;

verus! {

/// Number of ballots in `vs` that score option `j` exactly `g`.
pub open spec fn score_eq_at(vs: Seq<Seq<int>>, j: int, g: int) -> nat
    decreases vs.len(),
{
    if vs.len() == 0 {
        0
    } else {
        score_eq_at(vs.drop_last(), j, g) + (if vs.last()[j] == g {
            1nat
        } else {
            0nat
        })
    }
}

/// Number of ballots in `vs` that score option `j` at most `g`.
pub open spec fn score_le_at(vs: Seq<Seq<int>>, j: int, g: int) -> nat
    decreases vs.len(),
{
    if vs.len() == 0 {
        0
    } else {
        score_le_at(vs.drop_last(), j, g) + (if vs.last()[j] <= g {
            1nat
        } else {
            0nat
        })
    }
}

/// Number of entries of `s` equal to `g`.
pub open spec fn count_score(s: Seq<i32>, g: int) -> nat
    decreases s.len(),
{
    if s.len() == 0 {
        0
    } else {
        count_score(s.drop_last(), g) + (if s.last() as int == g {
            1nat
        } else {
            0nat
        })
    }
}

/// Sum of the histogram buckets `0..=g`.
pub open spec fn cum_tallies(t: Seq<usize>, g: int) -> int
    decreases g + 1,
{
    if g < 0 {
        0
    } else {
        cum_tallies(t, g - 1) + t[g]
    }
}

pub proof fn lemma_cum_mono(t: Seq<usize>, g1: int, g2: int)
    requires
        g1 <= g2,
    ensures
        cum_tallies(t, g1) <= cum_tallies(t, g2),
    decreases g2 - g1,
{
    if g1 < g2 {
        lemma_cum_mono(t, g1, g2 - 1);
    }
}

/// Counting at-most-`g` splits into at-most-`g - 1` plus exactly-`g`.
pub proof fn lemma_le_split(vs: Seq<Seq<int>>, j: int, g: int)
    ensures
        score_le_at(vs, j, g) == score_le_at(vs, j, g - 1) + score_eq_at(vs, j, g),
    decreases vs.len(),
{
    if vs.len() > 0 {
        lemma_le_split(vs.drop_last(), j, g);
    }
}

/// With all scores in `0..=nscale`, every ballot is counted at `nscale` and
/// none below `0`.
pub proof fn lemma_le_bounds(vs: Seq<Seq<int>>, j: int, nscale: int)
    requires
        forall|i: int| 0 <= i < vs.len() ==> 0 <= (#[trigger] vs[i])[j] <= nscale,
    ensures
        score_le_at(vs, j, nscale) == vs.len(),
        score_le_at(vs, j, -1) == 0,
    decreases vs.len(),
{
    if vs.len() > 0 {
        assert(forall|i: int| 0 <= i < vs.drop_last().len() ==> vs.drop_last()[i] == vs[i]);
        lemma_le_bounds(vs.drop_last(), j, nscale);
    }
}

/// A histogram that carries the exact counts accumulates to the at-most
/// counts.
pub proof fn lemma_cum_eq_le(t: Seq<usize>, vs: Seq<Seq<int>>, j: int, g: int, nscale: int)
    requires
        0 <= g < t.len(),
        forall|g2: int| 0 <= g2 < t.len() ==> (#[trigger] t[g2]) == score_eq_at(vs, j, g2),
        forall|i: int| 0 <= i < vs.len() ==> 0 <= (#[trigger] vs[i])[j] <= nscale,
    ensures
        cum_tallies(t, g) == score_le_at(vs, j, g),
    decreases g + 1,
{
    lemma_le_split(vs, j, g);
    assert(t[g] == score_eq_at(vs, j, g));
    if g == 0 {
        lemma_le_bounds(vs, j, nscale);
        assert(cum_tallies(t, -1) == 0);
        assert(cum_tallies(t, 0) == t[0]);
        assert(score_le_at(vs, j, 0) == score_le_at(vs, j, -1) + score_eq_at(vs, j, 0));
    } else {
        lemma_cum_eq_le(t, vs, j, g - 1, nscale);
        assert(cum_tallies(t, g) == cum_tallies(t, g - 1) + t[g]);
    }
}

/// The majority grade of a histogram: the lowest grade at which the
/// cumulative count from the bottom reaches half of `total`, or the top
/// grade.
pub open spec fn mg_from_tallies(t: Seq<usize>, total: int, g: int) -> int
    decreases t.len() - g,
{
    if g >= t.len() - 1 {
        t.len() - 1
    } else if 2 * cum_tallies(t, g) >= total {
        g
    } else {
        mg_from_tallies(t, total, g + 1)
    }
}

pub open spec fn tally_majority(t: Seq<usize>, total: int) -> int {
    mg_from_tallies(t, total, 0)
}

proof fn lemma_mg_from_unique(t: Seq<usize>, total: int, g: int, r: int)
    requires
        0 <= g <= r < t.len(),
        2 * cum_tallies(t, r) >= total,
        forall|g2: int| g <= g2 < r ==> 2 * cum_tallies(t, g2) < total,
    ensures
        mg_from_tallies(t, total, g) == r,
    decreases r - g,
{
    if g < r {
        lemma_mg_from_unique(t, total, g + 1, r);
    }
}

/// All scores option `option_index` received, as a sorted list plus a
/// histogram.
#[derive(Debug)]
pub struct ScoreCount<const N: usize> {
    pub option_index: usize,
    pub scores: Vec<i32>,
    pub tallies: Vec<usize>,
}

impl<const N: usize> ScoreCount<N> {
    /// This record faithfully describes what the ballots `vs` gave option
    /// `j`: the histogram counts each grade, and the score list is the
    /// sorted list of all received scores.
    pub open spec fn valid_for(self, vs: Seq<Seq<int>>, j: int) -> bool {
        &&& self.option_index == j
        &&& self.tallies@.len() == N + 1
        &&& forall|g: int| 0 <= g <= N ==> (#[trigger] self.tallies@[g]) == score_eq_at(vs, j, g)
        &&& self.scores@.len() == vs.len()
        &&& forall|i1: int, i2: int|
            0 <= i1 < i2 < self.scores@.len() ==> (#[trigger] self.scores@[i1]) <= (
            #[trigger] self.scores@[i2])
        &&& forall|i: int| 0 <= i < self.scores@.len() ==> 0 <= (#[trigger] self.scores@[i]) <= N
        &&& forall|g: int|
            0 <= g <= N ==> #[trigger] count_score(self.scores@, g) == score_eq_at(vs, j, g)
    }

    /// The middle entry of the sorted score list.
    pub fn median(&self) -> (r: i32)
        requires
            self.scores@.len() >= 1,
        ensures
            r == self.scores@[self.scores@.len() as int / 2],
    {
        self.scores[self.scores.len() / 2]
    }

    /// The majority grade: the lowest grade at which the cumulative count
    /// from the bottom reaches half of all ballots.
    pub fn majority(&self) -> (r: usize)
        requires
            self.tallies@.len() >= 1,
            cum_tallies(self.tallies@, self.tallies@.len() - 1) == self.scores@.len(),
            1 <= self.scores@.len() <= 0x1000_0000,
        ensures
            r < self.tallies@.len(),
            2 * cum_tallies(self.tallies@, r as int) >= self.scores@.len(),
            forall|g: int| 0 <= g < r ==> 2 * cum_tallies(self.tallies@, g) < self.scores@.len(),
            r == tally_majority(self.tallies@, self.scores@.len() as int),
    {
        let total = self.scores.len();
        let mut sum: usize = 0;
        let mut g: usize = 0;
        while g < self.tallies.len()
            invariant
                g <= self.tallies@.len(),
                total == self.scores@.len(),
                1 <= total <= 0x1000_0000,
                cum_tallies(self.tallies@, self.tallies@.len() - 1) == total,
                sum == cum_tallies(self.tallies@, g - 1),
                forall|g2: int| 0 <= g2 < g ==> 2 * cum_tallies(self.tallies@, g2) < total,
            decreases self.tallies@.len() - g,
        {
            proof {
                lemma_cum_mono(self.tallies@, g as int, self.tallies@.len() - 1);
            }
            sum = sum + self.tallies[g];
            if 2 * sum >= total {
                proof {
                    lemma_mg_from_unique(self.tallies@, total as int, 0, g as int);
                }
                return g;
            }
            g = g + 1;
        }
        proof {
            assert(2 * cum_tallies(self.tallies@, self.tallies@.len() - 1) < total);
            assert(false);
        }
        0
    }
}

/// Build the per-option score statistics from the cast score ballots.  The
/// sorted score list is assembled grade by grade from the histogram.
pub fn get_score_counts<const N: usize>(votes: &Vec<ScoreBallot<N>>) -> (r: Vec<ScoreCount<N>>)
    requires
        votes@.len() >= 1,
        N <= 1000,
        forall|i: int|
            0 <= i < votes@.len() ==> (#[trigger] votes@[i]).votes@.len() == votes@[0].votes@.len(),
        forall|i: int, j: int|
            0 <= i < votes@.len() && 0 <= j < votes@[0].votes@.len() ==> 0 <= (
            #[trigger] votes@[i].votes@[j]) <= N,
    ensures
        r@.len() == votes@[0].votes@.len(),
        forall|j: int|
            0 <= j < r@.len() ==> (#[trigger] r@[j]).valid_for(ballot_views(votes@), j),
{
    let ghost vs = ballot_views(votes@);
    proof {
        assert forall|i: int, j: int|
            0 <= i < vs.len() && 0 <= j < votes@[0].votes@.len() implies #[trigger] vs[i][j]
            == votes@[i].votes@[j] as int by {
            assert(vs[i] == votes@[i].bview());
        }
    }
    let num_candidates = votes[0].votes.len();
    let mut r: Vec<ScoreCount<N>> = Vec::new();
    let mut j: usize = 0;
    while j < num_candidates
        invariant
            j <= num_candidates,
            vs == ballot_views(votes@),
            vs.len() == votes@.len(),
            votes@.len() >= 1,
            N <= 1000,
            num_candidates == votes@[0].votes@.len(),
            forall|i: int|
                0 <= i < votes@.len() ==> (#[trigger] votes@[i]).votes@.len() == num_candidates,
            forall|i: int, j2: int|
                0 <= i < vs.len() && 0 <= j2 < num_candidates ==> 0 <= #[trigger] vs[i][j2] <= N,
            forall|i: int, j2: int|
                0 <= i < vs.len() && 0 <= j2 < num_candidates ==> #[trigger] vs[i][j2] == votes@[i].votes@[j2] as int,
            r@.len() == j,
            forall|j2: int| 0 <= j2 < j ==> (#[trigger] r@[j2]).valid_for(vs, j2),
        decreases num_candidates - j,
    {
        // Histogram of the scores this option received.
        let mut tallies: Vec<usize> = Vec::new();
        let mut g: usize = 0;
        while g <= N
            invariant
                g <= N + 1,
                N <= 1000,
                tallies@.len() == g,
                forall|g2: int| 0 <= g2 < g ==> (#[trigger] tallies@[g2]) == 0,
            decreases N + 1 - g,
        {
            tallies.push(0);
            g = g + 1;
        }
        let mut i: usize = 0;
        while i < votes.len()
            invariant
                i <= vs.len(),
                vs == ballot_views(votes@),
                vs.len() == votes@.len(),
                j < num_candidates,
                num_candidates == votes@[0].votes@.len(),
                forall|i2: int|
                    0 <= i2 < votes@.len() ==> (#[trigger] votes@[i2]).votes@.len() == num_candidates,
                forall|i2: int, j2: int|
                    0 <= i2 < vs.len() && 0 <= j2 < num_candidates ==> 0 <= #[trigger] vs[i2][j2] <= N,
                forall|i2: int, j2: int|
                    0 <= i2 < vs.len() && 0 <= j2 < num_candidates ==> #[trigger] vs[i2][j2] == votes@[i2].votes@[j2] as int,
                tallies@.len() == N + 1,
                forall|g2: int|
                    0 <= g2 <= N ==> (#[trigger] tallies@[g2]) == score_eq_at(
                        vs.take(i as int),
                        j as int,
                        g2,
                    ),
                forall|g2: int| 0 <= g2 <= N ==> (#[trigger] tallies@[g2]) <= i,
            decreases vs.len() - i,
        {
            proof {
                assert(vs.take(i + 1).drop_last() =~= vs.take(i as int));
                assert(vs.take(i + 1).last() == vs[i as int]);
            }
            let s = votes[i].votes[j];
            proof {
                assert(vs[i as int][j as int] == votes@[i as int].votes@[j as int] as int);
                assert(0 <= vs[i as int][j as int] <= N);
            }
            let su = s as usize;
            let old_t = tallies[su];
            tallies.set(su, old_t + 1);
            proof {
                assert forall|g2: int| 0 <= g2 <= N && g2 != su implies (#[trigger] tallies@[g2])
                    == score_eq_at(vs.take(i + 1), j as int, g2) by {}
            }
            i = i + 1;
        }
        proof {
            assert(vs.take(vs.len() as int) =~= vs);
        }
        // The sorted score list, grade by grade.
        let mut scores: Vec<i32> = Vec::new();
        let mut g2: usize = 0;
        while g2 <= N
            invariant
                g2 <= N + 1,
                N <= 1000,
                tallies@.len() == N + 1,
                forall|g3: int| 0 <= g3 <= N ==> (#[trigger] tallies@[g3]) == score_eq_at(vs, j as int, g3),
                scores@.len() == cum_tallies(tallies@, g2 - 1),
                forall|i2: int| 0 <= i2 < scores@.len() ==> 0 <= (#[trigger] scores@[i2]) < g2,
                forall|i1: int, i2: int|
                    0 <= i1 < i2 < scores@.len() ==> (#[trigger] scores@[i1]) <= (#[trigger] scores@[i2]),
                forall|g3: int|
                    0 <= g3 < g2 ==> count_score(scores@, g3) == (#[trigger] tallies@[g3]),
                forall|g3: int| g2 <= g3 ==> #[trigger] count_score(scores@, g3) == 0,
            decreases N + 1 - g2,
        {
            let cnt = tallies[g2];
            let mut p: usize = 0;
            let ghost pre_scores = scores@;
            while p < cnt
                invariant
                    p <= cnt,
                    g2 <= N,
                    N <= 1000,
                    tallies@.len() == N + 1,
                    cnt == tallies@[g2 as int],
                    scores@.len() == pre_scores.len() + p,
                    forall|i2: int| 0 <= i2 < pre_scores.len() ==> scores@[i2] == pre_scores[i2],
                    forall|i2: int|
                        pre_scores.len() <= i2 < scores@.len() ==> (#[trigger] scores@[i2]) == g2 as i32,
                    forall|g3: int|
                        g3 != g2 ==> #[trigger] count_score(scores@, g3) == count_score(pre_scores, g3),
                    count_score(scores@, g2 as int) == count_score(pre_scores, g2 as int) + p,
                decreases cnt - p,
            {
                let ghost sp = scores@;
                scores.push(g2 as i32);
                proof {
                    assert(scores@.drop_last() =~= sp);
                    assert forall|g3: int| g3 != g2 implies #[trigger] count_score(scores@, g3)
                        == count_score(sp, g3) by {}
                }
                p = p + 1;
            }
            proof {
                assert forall|i2: int| 0 <= i2 < scores@.len() implies 0 <= (#[trigger] scores@[i2])
                    < g2 + 1 by {
                    if i2 < pre_scores.len() {
                        assert(scores@[i2] == pre_scores[i2]);
                    }
                }
                assert forall|i1: int, i2: int| 0 <= i1 < i2 < scores@.len() implies (
                #[trigger] scores@[i1]) <= (#[trigger] scores@[i2]) by {
                    if i2 < pre_scores.len() {
                        assert(scores@[i1] == pre_scores[i1] && scores@[i2] == pre_scores[i2]);
                    } else if i1 < pre_scores.len() {
                        assert(scores@[i1] == pre_scores[i1]);
                        assert(scores@[i1] < g2 as i32);
                    }
                }
            }
            g2 = g2 + 1;
        }
        proof {
            assert forall|g3: int| 0 <= g3 <= N implies #[trigger] count_score(scores@, g3)
                == score_eq_at(vs, j as int, g3) by {
                assert(count_score(scores@, g3) == tallies@[g3]);
            }
            lemma_cum_eq_le(tallies@, vs, j as int, N as int, N as int);
            lemma_le_bounds(vs, j as int, N as int);
            assert(scores@.len() == vs.len());
        }
        r.push(ScoreCount { option_index: j, scores, tallies });
        j = j + 1;
    }
    r
}

} // verus!
