//! The vote aggregator: group identical ballots into `(ballot, count)`
//! bundles, sorted by count descending.  Every voting method tallies bundles
//! instead of re-scanning individual ballots.

use vstd::prelude::*;
use crate::ballots::VotingMethod;

verus! {

/// All cast ballots equal to `ballot`, collapsed to one entry with a count.
#[derive(Debug, Clone)]
pub struct VoteBundle<T> {
    pub ballot: T,
    pub votes: usize,
}

/// The views of a list of ballots.
pub open spec fn ballot_views<T: VotingMethod>(votes: Seq<T>) -> Seq<Seq<int>> {
    votes.map_values(|t: T| t.bview())
}

/// How many of the views in `vs` equal `v`.
pub open spec fn view_count(vs: Seq<Seq<int>>, v: Seq<int>) -> nat
    decreases vs.len(),
{
    if vs.len() == 0 {
        0
    } else {
        view_count(vs.drop_last(), v) + (if vs.last() == v {
            1nat
        } else {
            0nat
        })
    }
}

pub proof fn lemma_view_count_le(vs: Seq<Seq<int>>, v: Seq<int>)
    ensures
        view_count(vs, v) <= vs.len(),
    decreases vs.len(),
{
    if vs.len() > 0 {
        lemma_view_count_le(vs.drop_last(), v);
    }
}

pub proof fn lemma_view_count_take_step(vs: Seq<Seq<int>>, v: Seq<int>, k: int)
    requires
        0 <= k < vs.len(),
    ensures
        view_count(vs.take(k + 1), v) == view_count(vs.take(k), v) + (if vs[k] == v {
            1int
        } else {
            0int
        }),
{
    assert(vs.take(k + 1).drop_last() =~= vs.take(k));
    assert(vs.take(k + 1).last() == vs[k]);
}

pub proof fn lemma_view_count_zero(vs: Seq<Seq<int>>, v: Seq<int>)
    requires
        forall|i: int| 0 <= i < vs.len() ==> #[trigger] vs[i] != v,
    ensures
        view_count(vs, v) == 0,
    decreases vs.len(),
{
    if vs.len() > 0 {
        assert(forall|i: int| 0 <= i < vs.drop_last().len() ==> vs.drop_last()[i] == vs[i]);
        lemma_view_count_zero(vs.drop_last(), v);
    }
}

pub open spec fn total_bundle_votes<T>(bs: Seq<VoteBundle<T>>) -> int
    decreases bs.len(),
{
    if bs.len() == 0 {
        0
    } else {
        total_bundle_votes(bs.drop_last()) + bs.last().votes
    }
}

pub open spec fn has_view<T: VotingMethod>(bs: Seq<VoteBundle<T>>, v: Seq<int>) -> bool {
    exists|i: int| 0 <= i < bs.len() && (#[trigger] bs[i]).ballot.bview() == v
}

/// `bs` is a faithful grouping of the ballot views `vs`: each bundle counts
/// exactly the occurrences of its ballot, no two bundles hold the same
/// ballot, and every cast ballot has a bundle.
pub open spec fn bundles_group<T: VotingMethod>(bs: Seq<VoteBundle<T>>, vs: Seq<Seq<int>>) -> bool {
    &&& forall|i: int|
        0 <= i < bs.len() ==> (#[trigger] bs[i]).votes == view_count(vs, bs[i].ballot.bview())
    &&& forall|i: int, j: int|
        0 <= i < j < bs.len() ==> (#[trigger] bs[i]).ballot.bview() != (#[trigger] bs[j]).ballot.bview()
    &&& forall|k: int| 0 <= k < vs.len() ==> has_view(bs, #[trigger] vs[k])
}

pub open spec fn bundles_sorted<T>(bs: Seq<VoteBundle<T>>) -> bool {
    forall|i: int, j: int| 0 <= i < j < bs.len() ==> (#[trigger] bs[i]).votes >= (#[trigger] bs[j]).votes
}

proof fn lemma_total_push<T>(bs: Seq<VoteBundle<T>>, b: VoteBundle<T>)
    ensures
        total_bundle_votes(bs.push(b)) == total_bundle_votes(bs) + b.votes,
{
    assert(bs.push(b).drop_last() =~= bs);
}

proof fn lemma_total_update<T>(bs: Seq<VoteBundle<T>>, i: int, b: VoteBundle<T>)
    requires
        0 <= i < bs.len(),
    ensures
        total_bundle_votes(bs.update(i, b)) == total_bundle_votes(bs) - bs[i].votes + b.votes,
    decreases bs.len(),
{
    if i == bs.len() - 1 {
        assert(bs.update(i, b).drop_last() =~= bs.drop_last());
        assert(bs.update(i, b).last() == b);
    } else {
        assert(bs.update(i, b).drop_last() =~= bs.drop_last().update(i, b));
        assert(bs.update(i, b).last() == bs.last());
        lemma_total_update(bs.drop_last(), i, b);
    }
}

proof fn lemma_total_remove<T>(bs: Seq<VoteBundle<T>>, m: int)
    requires
        0 <= m < bs.len(),
    ensures
        total_bundle_votes(bs.remove(m)) == total_bundle_votes(bs) - bs[m].votes,
    decreases bs.len(),
{
    if m == bs.len() - 1 {
        assert(bs.remove(m) =~= bs.drop_last());
    } else {
        assert(bs.remove(m).drop_last() =~= bs.drop_last().remove(m));
        assert(bs.remove(m).last() == bs.last());
        lemma_total_remove(bs.drop_last(), m);
    }
}

/// Group the cast ballots by equality, count each group, and sort the groups
/// by count descending.  The sum of all counts is the number of voters who
/// voted; bundle order among equal counts is left open.
pub fn vote_bundle<T: VotingMethod>(votes: &Vec<T>) -> (r: Vec<VoteBundle<T>>)
    ensures
        bundles_group(r@, ballot_views(votes@)),
        bundles_sorted(r@),
        total_bundle_votes(r@) == votes@.len(),
{
    let ghost vs = ballot_views(votes@);
    let mut bundles: Vec<VoteBundle<T>> = Vec::new();
    let mut k: usize = 0;
    while k < votes.len()
        invariant
            k <= vs.len(),
            vs == ballot_views(votes@),
            vs.len() == votes@.len(),
            bundles_group(bundles@, vs.take(k as int)),
            total_bundle_votes(bundles@) == k,
        decreases vs.len() - k,
    {
        let ghost vview = vs[k as int];
        proof {
            assert(vview == votes@[k as int].bview());
        }
        let mut f: usize = 0;
        let mut found: bool = false;
        let mut fi: usize = 0;
        while f < bundles.len()
            invariant
                f <= bundles@.len(),
                vview == votes@[k as int].bview(),
                k < votes@.len(),
                !found ==> forall|t: int|
                    0 <= t < f ==> (#[trigger] bundles@[t]).ballot.bview() != vview,
                found ==> fi < bundles@.len() && bundles@[fi as int].ballot.bview() == vview,
            decreases bundles@.len() - f,
        {
            if bundles[f].ballot.same(&votes[k]) {
                found = true;
                fi = f;
            }
            f = f + 1;
        }
        if found {
            let old_count = bundles[fi].votes;
            proof {
                lemma_view_count_le(vs.take(k as int), bundles@[fi as int].ballot.bview());
            }
            let nb = VoteBundle { ballot: bundles[fi].ballot.duplicate(), votes: old_count + 1 };
            proof {
                lemma_total_update(bundles@, fi as int, nb);
                lemma_view_count_take_step(vs, vview, k as int);
                assert forall|w: Seq<int>| w != vview implies view_count(vs.take(k + 1), w)
                    == view_count(vs.take(k as int), w) by {
                    lemma_view_count_take_step(vs, w, k as int);
                }
            }
            let ghost pre = bundles@;
            bundles.set(fi, nb);
            proof {
                assert forall|t: int| 0 <= t < k + 1 implies has_view(bundles@, #[trigger] vs.take(k + 1)[t]) by {
                    if t < k {
                        assert(has_view(pre, vs.take(k as int)[t]));
                        let w = choose|i: int|
                            0 <= i < pre.len() && (#[trigger] pre[i]).ballot.bview() == vs[t];
                        assert(bundles@[w].ballot.bview() == vs[t]);
                    } else {
                        assert(bundles@[fi as int].ballot.bview() == vview);
                    }
                }
            }
        } else {
            proof {
                assert forall|t: int| 0 <= t < k implies #[trigger] vs[t] != vview by {
                    assert(has_view(bundles@, vs.take(k as int)[t]));
                }
                assert(forall|t: int| 0 <= t < vs.take(k as int).len() ==> #[trigger] vs.take(
                    k as int,
                )[t] != vview);
                lemma_view_count_zero(vs.take(k as int), vview);
                lemma_view_count_take_step(vs, vview, k as int);
                assert forall|w: Seq<int>| w != vview implies view_count(vs.take(k + 1), w)
                    == view_count(vs.take(k as int), w) by {
                    lemma_view_count_take_step(vs, w, k as int);
                }
            }
            let nb = VoteBundle { ballot: votes[k].duplicate(), votes: 1 };
            proof {
                lemma_total_push(bundles@, nb);
            }
            let ghost pre = bundles@;
            bundles.push(nb);
            proof {
                assert forall|t: int| 0 <= t < k + 1 implies has_view(bundles@, #[trigger] vs.take(k + 1)[t]) by {
                    if t < k {
                        assert(has_view(pre, vs.take(k as int)[t]));
                        let w = choose|i: int|
                            0 <= i < pre.len() && (#[trigger] pre[i]).ballot.bview() == vs[t];
                        assert(bundles@[w].ballot.bview() == vs[t]);
                    } else {
                        assert(bundles@[bundles@.len() - 1].ballot.bview() == vview);
                    }
                }
            }
        }
        k = k + 1;
    }
    proof {
        assert(vs.take(vs.len() as int) =~= vs);
    }
    // Sort the groups by count, largest first, by repeatedly extracting a
    // largest remaining group.
    let mut result: Vec<VoteBundle<T>> = Vec::new();
    while bundles.len() > 0
        invariant
            forall|i: int|
                0 <= i < result@.len() ==> (#[trigger] result@[i]).votes == view_count(
                    vs,
                    result@[i].ballot.bview(),
                ),
            forall|i: int|
                0 <= i < bundles@.len() ==> (#[trigger] bundles@[i]).votes == view_count(
                    vs,
                    bundles@[i].ballot.bview(),
                ),
            forall|i: int, j: int|
                0 <= i < j < result@.len() ==> (#[trigger] result@[i]).ballot.bview() != (
                #[trigger] result@[j]).ballot.bview(),
            forall|i: int, j: int|
                0 <= i < j < bundles@.len() ==> (#[trigger] bundles@[i]).ballot.bview() != (
                #[trigger] bundles@[j]).ballot.bview(),
            forall|i: int, j: int|
                0 <= i < result@.len() && 0 <= j < bundles@.len() ==> (#[trigger] result@[i]).ballot.bview()
                    != (#[trigger] bundles@[j]).ballot.bview(),
            forall|k: int|
                0 <= k < vs.len() ==> has_view(result@, #[trigger] vs[k]) || has_view(bundles@, vs[k]),
            bundles_sorted(result@),
            forall|i: int, j: int|
                0 <= i < result@.len() && 0 <= j < bundles@.len() ==> (#[trigger] result@[i]).votes
                    >= (#[trigger] bundles@[j]).votes,
            total_bundle_votes(result@) + total_bundle_votes(bundles@) == vs.len(),
        decreases bundles@.len(),
    {
        let mut m: usize = 0;
        let mut f: usize = 1;
        while f < bundles.len()
            invariant
                m < f <= bundles@.len(),
                forall|t: int|
                    0 <= t < f ==> bundles@[m as int].votes >= (#[trigger] bundles@[t]).votes,
            decreases bundles@.len() - f,
        {
            if bundles[f].votes > bundles[m].votes {
                m = f;
            }
            f = f + 1;
        }
        let ghost pre = bundles@;
        proof {
            lemma_total_remove(pre, m as int);
            pre.remove_ensures(m as int);
        }
        let b = bundles.remove(m);
        let ghost pre_result = result@;
        result.push(b);
        proof {
            lemma_total_push(pre_result, b);
            assert(pre_result.push(b) =~= result@);
            assert forall|k: int| 0 <= k < vs.len() implies has_view(result@, #[trigger] vs[k])
                || has_view(bundles@, vs[k]) by {
                if has_view(pre_result, vs[k]) {
                    let w = choose|i: int|
                        0 <= i < pre_result.len() && (#[trigger] pre_result[i]).ballot.bview() == vs[k];
                    assert(result@[w].ballot.bview() == vs[k]);
                } else if has_view(pre, vs[k]) {
                    let w = choose|i: int|
                        0 <= i < pre.len() && (#[trigger] pre[i]).ballot.bview() == vs[k];
                    if w == m {
                        assert(result@[result@.len() - 1].ballot.bview() == vs[k]);
                    } else if w < m {
                        assert(bundles@[w].ballot.bview() == vs[k]);
                    } else {
                        assert(bundles@[w - 1].ballot.bview() == vs[k]);
                    }
                }
            }
        }
    }
    result
}

} // verus!
