//! Preferential (instant-runoff): every voter ranks all options.  Each round
//! counts, for every option still standing, the voters whose highest-ranked
//! surviving option it is.  If the leader holds more than half of all votes,
//! or only one option is left, the round list ends and the leader wins; else
//! the option with the fewest votes leaves (ties to the lowest option index)
//! and a new round begins.  Every round's tally and eliminated list is kept
//! for the audit trail, with each tally in option order.

use vstd::prelude::*;
use crate::ballots::{fill, MandatoryPreferentialBallot, VotingMethod};
use crate::bundles::{
    ballot_views, bundles_group, bundles_sorted, total_bundle_votes, vote_bundle, VoteBundle,
};
use crate::election::{ElectionOption, VoteCount};
use crate::ratings::OptionRating;
use crate::tallies::{all_complete, first_choice, fptp_count, lemma_fptp_count_disjoint, ratings_view};

verus! {

/// Whether option `j` has been eliminated (is listed in `e`).
pub open spec fn elim_has(e: Seq<usize>, j: int) -> bool {
    exists|i: int| 0 <= i < e.len() && (#[trigger] e[i]) as int == j
}

/// The eliminated list is well-formed: in-range and without repeats.
pub open spec fn elim_ok(e: Seq<usize>, n: int) -> bool {
    &&& forall|i: int| 0 <= i < e.len() ==> (#[trigger] e[i]) < n
    &&& forall|i: int, j: int| 0 <= i < j < e.len() ==> (#[trigger] e[i]) != (#[trigger] e[j])
}

/// The highest-ranked option of `v` that is not eliminated; `-1` when every
/// ranked option is.
pub open spec fn first_active(v: Seq<OptionRating>, e: Seq<usize>) -> int
    decreases v.len(),
{
    if v.len() == 0 {
        -1
    } else if !elim_has(e, v[0].option_index as int) {
        v[0].option_index as int
    } else {
        first_active(v.drop_first(), e)
    }
}

/// Number of voters whose highest-ranked surviving option is `j`.
pub open spec fn active_count(rat: Seq<Seq<OptionRating>>, e: Seq<usize>, j: int) -> nat
    decreases rat.len(),
{
    if rat.len() == 0 {
        0
    } else {
        active_count(rat.drop_last(), e, j) + (if first_active(rat.last(), e) == j {
            1nat
        } else {
            0nat
        })
    }
}

/// `x` is the round's leader: the lowest-index surviving option with the
/// most votes.
pub open spec fn is_round_top(rat: Seq<Seq<OptionRating>>, e: Seq<usize>, n: int, x: int) -> bool {
    &&& 0 <= x < n
    &&& !elim_has(e, x)
    &&& forall|j: int|
        0 <= j < n && !elim_has(e, j) ==> #[trigger] active_count(rat, e, j) <= active_count(
            rat,
            e,
            x,
        )
    &&& forall|j: int|
        0 <= j < x && !elim_has(e, j) ==> #[trigger] active_count(rat, e, j) < active_count(
            rat,
            e,
            x,
        )
}

/// `x` is the round's loser: the lowest-index surviving option with the
/// fewest votes.
pub open spec fn is_round_loser(rat: Seq<Seq<OptionRating>>, e: Seq<usize>, n: int, x: int) -> bool {
    &&& 0 <= x < n
    &&& !elim_has(e, x)
    &&& forall|j: int|
        0 <= j < n && !elim_has(e, j) ==> #[trigger] active_count(rat, e, j) >= active_count(
            rat,
            e,
            x,
        )
    &&& forall|j: int|
        0 <= j < x && !elim_has(e, j) ==> #[trigger] active_count(rat, e, j) > active_count(
            rat,
            e,
            x,
        )
}

/// One elimination round's audit record.
pub struct Round {
    pub eliminated_candidates: Vec<usize>,
    pub vote_tally: Vec<VoteCount>,
}

pub open spec fn tally_has(tally: Seq<VoteCount>, j: int) -> bool {
    exists|i: int| 0 <= i < tally.len() && (#[trigger] tally[i]).option_index as int == j
}

/// The round's tally lists exactly the surviving options, in option order,
/// each with its current vote count.
pub open spec fn round_ok(
    round: Round,
    options: Seq<ElectionOption>,
    rat: Seq<Seq<OptionRating>>,
) -> bool {
    let e = round.eliminated_candidates@;
    let tally = round.vote_tally@;
    &&& forall|i1: int, i2: int|
        0 <= i1 < i2 < tally.len() ==> (#[trigger] tally[i1]).option_index < (
        #[trigger] tally[i2]).option_index
    &&& forall|i: int|
        0 <= i < tally.len() ==> {
            let t = #[trigger] tally[i];
            &&& t.option_index < options.len()
            &&& !elim_has(e, t.option_index as int)
            &&& t.votes == active_count(rat, e, t.option_index as int)
            &&& t.option@ == options[t.option_index as int]@
        }
    &&& forall|j: int|
        0 <= j < options.len() && !elim_has(e, j) ==> #[trigger] tally_has(tally, j)
}

/// No surviving option holds a strict majority in this round.
pub open spec fn no_majority(round: Round, rat: Seq<Seq<OptionRating>>, n: int) -> bool {
    forall|j: int|
        0 <= j < n && !elim_has(round.eliminated_candidates@, j) ==> 2 * #[trigger] active_count(
            rat,
            round.eliminated_candidates@,
            j,
        ) <= rat.len()
}

/// Some surviving option holds a strict majority in this round.
pub open spec fn has_majority(round: Round, rat: Seq<Seq<OptionRating>>, n: int) -> bool {
    exists|j: int|
        0 <= j < n && !elim_has(round.eliminated_candidates@, j) && 2 * #[trigger] active_count(
            rat,
            round.eliminated_candidates@,
            j,
        ) > rat.len()
}

/// The ranking ballots each voter would cast, one view per voter.
pub open spec fn pref_ballot_views(rat: Seq<Seq<OptionRating>>) -> Seq<Seq<int>> {
    Seq::new(rat.len(), |i: int| rat[i].map_values(|r: OptionRating| r.option_index as int))
}

pub struct PreferentialResult {
    pub winner: ElectionOption,
    pub winner_index: usize,
    pub total_votes: usize,
    pub rounds: Vec<Round>,
    pub bundles: Vec<VoteBundle<MandatoryPreferentialBallot>>,
}

/// What a Preferential result must look like.  The round list starts with
/// nothing eliminated; each later round eliminates exactly the previous
/// round's loser; every round but the last had neither a majority leader nor
/// a single survivor; the last round has one or the other; and the winner is
/// the last round's leader.  The loop runs at most one round per option.
pub open spec fn preferential_valid(
    r: PreferentialResult,
    options: Seq<ElectionOption>,
    rat: Seq<Seq<OptionRating>>,
) -> bool {
    let n = options.len() as int;
    let rounds = r.rounds@;
    let last = rounds.len() - 1;
    &&& r.total_votes == rat.len()
    &&& 1 <= rounds.len() <= n
    &&& forall|t: int|
        0 <= t < rounds.len() ==> {
            let round = #[trigger] rounds[t];
            &&& round.eliminated_candidates@.len() == t
            &&& elim_ok(round.eliminated_candidates@, n)
            &&& round_ok(round, options, rat)
        }
    &&& forall|t: int|
        0 < t < rounds.len() ==> (#[trigger] rounds[t]).eliminated_candidates@.drop_last()
            == rounds[t - 1].eliminated_candidates@ && is_round_loser(
            rat,
            rounds[t - 1].eliminated_candidates@,
            n,
            rounds[t].eliminated_candidates@.last() as int,
        )
    &&& forall|t: int|
        0 <= t < last ==> no_majority(#[trigger] rounds[t], rat, n) && t != n - 1
    &&& (has_majority(rounds[last], rat, n) || last == n - 1)
    &&& is_round_top(rat, rounds[last].eliminated_candidates@, n, r.winner_index as int)
    &&& r.winner_index < n
    &&& r.winner@ == options[r.winner_index as int]@
    &&& bundles_group(r.bundles@, pref_ballot_views(rat))
    &&& bundles_sorted(r.bundles@)
    &&& total_bundle_votes(r.bundles@) == rat.len()
}

/// A well-formed eliminated list shorter than the option list leaves some
/// option surviving.
pub proof fn lemma_exists_active(e: Seq<usize>, n: int)
    requires
        elim_ok(e, n),
        e.len() < n,
    ensures
        exists|j: int| 0 <= j < n && !#[trigger] elim_has(e, j),
{
    broadcast use vstd::seq_lib::seq_to_set_is_finite;

    if !(exists|j: int| 0 <= j < n && !#[trigger] elim_has(e, j)) {
        let ei = Seq::new(e.len(), |i: int| e[i] as int);
        assert(ei.no_duplicates());
        ei.unique_seq_to_set();
        vstd::set_lib::lemma_int_range(0, n);
        assert forall|j: int| vstd::set_lib::set_int_range(0, n).contains(j) implies ei.to_set().contains(
            j,
        ) by {
            assert(elim_has(e, j));
            let i = choose|i: int| 0 <= i < e.len() && (#[trigger] e[i]) as int == j;
            assert(ei[i] == j);
            assert(ei.contains(j));
        }
        vstd::set_lib::lemma_len_subset(vstd::set_lib::set_int_range(0, n), ei.to_set());
        assert(false);
    }
}

fn contains_exec(e: &Vec<usize>, j: usize) -> (r: bool)
    ensures
        r == elim_has(e@, j as int),
{
    let mut i: usize = 0;
    while i < e.len()
        invariant
            i <= e@.len(),
            forall|t: int| 0 <= t < i ==> (#[trigger] e@[t]) != j,
        decreases e@.len() - i,
    {
        if e[i] == j {
            return true;
        }
        i = i + 1;
    }
    false
}

fn first_active_is(v: &Vec<OptionRating>, e: &Vec<usize>, j: usize) -> (r: bool)
    ensures
        r == (first_active(v@, e@) == j as int),
{
    let mut k: usize = 0;
    proof {
        assert(v@.skip(0) =~= v@);
    }
    while k < v.len()
        invariant
            k <= v@.len(),
            first_active(v@, e@) == first_active(v@.skip(k as int), e@),
        decreases v@.len() - k,
    {
        proof {
            assert(v@.skip(k as int).drop_first() =~= v@.skip(k + 1));
            assert(v@.skip(k as int)[0] == v@[k as int]);
        }
        if !contains_exec(e, v[k].option_index) {
            return v[k].option_index == j;
        }
        k = k + 1;
    }
    proof {
        assert(v@.skip(v@.len() as int) =~= Seq::<OptionRating>::empty());
    }
    false
}

proof fn lemma_active_count_no_elims(rat: Seq<Seq<OptionRating>>, e: Seq<usize>, j: int)
    requires
        e.len() == 0,
        forall|i: int| 0 <= i < rat.len() ==> (#[trigger] rat[i]).len() >= 1,
    ensures
        active_count(rat, e, j) == fptp_count(rat, j),
    decreases rat.len(),
{
    if rat.len() > 0 {
        assert(forall|i: int| 0 <= i < rat.drop_last().len() ==> rat.drop_last()[i] == rat[i]);
        lemma_active_count_no_elims(rat.drop_last(), e, j);
        assert(!elim_has(e, rat.last()[0].option_index as int));
        assert(first_active(rat.last(), e) == first_choice(rat.last()));
    }
}

/// The majority shortcut: when one option is the first choice of more than
/// half of all voters, the round list ends after the very first round, with
/// nothing eliminated, and that option wins.
pub proof fn lemma_preferential_majority_shortcut(
    r: PreferentialResult,
    options: Seq<ElectionOption>,
    rat: Seq<Seq<OptionRating>>,
    j: int,
)
    requires
        preferential_valid(r, options, rat),
        all_complete(rat, options.len() as int),
        options.len() >= 1,
        rat.len() >= 1,
        0 <= j < options.len(),
        2 * fptp_count(rat, j) > rat.len(),
    ensures
        r.rounds@.len() == 1,
        r.rounds@[0].eliminated_candidates@.len() == 0,
        r.winner_index as int == j,
{
    let rounds = r.rounds@;
    let e0 = rounds[0].eliminated_candidates@;
    assert(e0.len() == 0);
    assert(forall|i: int| 0 <= i < rat.len() ==> (#[trigger] rat[i]).len() >= 1);
    lemma_active_count_no_elims(rat, e0, j);
    assert(!elim_has(e0, j));
    if rounds.len() > 1 {
        assert(no_majority(rounds[0], rat, options.len() as int));
        assert(2 * active_count(rat, e0, j) <= rat.len());
        assert(false);
    }
    let w = r.winner_index as int;
    assert(is_round_top(rat, e0, options.len() as int, w));
    lemma_active_count_no_elims(rat, e0, w);
    assert(active_count(rat, e0, j) <= active_count(rat, e0, w));
    if w != j {
        lemma_fptp_count_disjoint(rat, j, w);
        assert(false);
    }
}

pub struct Preferential;

impl Preferential {
    pub fn result(options: &Vec<ElectionOption>, option_ratings: &Vec<Vec<OptionRating>>) -> (r:
        PreferentialResult)
        requires
            options@.len() >= 1,
            1 <= option_ratings@.len() <= 0x1000_0000,
            all_complete(ratings_view(option_ratings@), options@.len() as int),
        ensures
            preferential_valid(r, options@, ratings_view(option_ratings@)),
    {
        let ghost rat = ratings_view(option_ratings@);
        let n = options.len();
        let total = option_ratings.len();
        let mut rounds: Vec<Round> = Vec::new();
        let mut elim: Vec<usize> = Vec::new();
        let mut winner_ix: usize = 0;
        let mut done: bool = false;
        while !done
            invariant
                n == options@.len(),
                n >= 1,
                total == rat.len(),
                1 <= total <= 0x1000_0000,
                rat == ratings_view(option_ratings@),
                all_complete(rat, n as int),
                elim_ok(elim@, n as int),
                elim@.len() <= n - 1,
                !done ==> rounds@.len() == elim@.len(),
                done ==> rounds@.len() == elim@.len() + 1,
                forall|t: int|
                    0 <= t < rounds@.len() ==> {
                        let round = #[trigger] rounds@[t];
                        &&& round.eliminated_candidates@.len() == t
                        &&& round.eliminated_candidates@ == elim@.take(t)
                        &&& elim_ok(round.eliminated_candidates@, n as int)
                        &&& round_ok(round, options@, rat)
                    },
                forall|t: int|
                    0 < t <= elim@.len() ==> #[trigger] is_round_loser(
                        rat,
                        elim@.take(t - 1),
                        n as int,
                        elim@[t - 1] as int,
                    ),
                forall|t: int|
                    0 <= t < rounds@.len() - (if done {
                        1int
                    } else {
                        0int
                    }) ==> no_majority(#[trigger] rounds@[t], rat, n as int) && t != n - 1,
                done ==> rounds@.len() >= 1 && (has_majority(
                    rounds@[rounds@.len() - 1],
                    rat,
                    n as int,
                ) || rounds@.len() - 1 == n - 1) && is_round_top(
                    rat,
                    rounds@[rounds@.len() - 1].eliminated_candidates@,
                    n as int,
                    winner_ix as int,
                ) && winner_ix < n,
            decreases n - elim@.len(), (if done {
                0int
            } else {
                1int
            }),
        {
            let ghost e = elim@;
            // Count, for every option, the voters whose ballot now ranks it
            // highest among the survivors.
            let mut counts: Vec<usize> = Vec::new();
            let mut j: usize = 0;
            while j < n
                invariant
                    j <= n,
                    rat == ratings_view(option_ratings@),
                    e == elim@,
                    counts@.len() == j,
                    forall|t: int| 0 <= t < j ==> counts@[t] == active_count(rat, e, t),
                    forall|t: int| 0 <= t < j ==> counts@[t] <= rat.len(),
                decreases n - j,
            {
                let mut c: usize = 0;
                let mut i: usize = 0;
                while i < option_ratings.len()
                    invariant
                        i <= rat.len(),
                        rat == ratings_view(option_ratings@),
                        e == elim@,
                        c <= i,
                        c == active_count(rat.take(i as int), e, j as int),
                    decreases rat.len() - i,
                {
                    proof {
                        assert(rat.take(i + 1).drop_last() =~= rat.take(i as int));
                        assert(rat.take(i + 1).last() == rat[i as int]);
                        assert(rat[i as int] == option_ratings@[i as int]@);
                    }
                    if first_active_is(&option_ratings[i], &elim, j) {
                        c = c + 1;
                    }
                    i = i + 1;
                }
                proof {
                    assert(rat.take(rat.len() as int) =~= rat);
                }
                counts.push(c);
                j = j + 1;
            }
            proof {
                lemma_exists_active(e, n as int);
            }
            // The round's leader and loser among the survivors, lowest index
            // first on ties.
            let mut top: usize = 0;
            let mut bottom: usize = 0;
            let mut found: bool = false;
            let mut k: usize = 0;
            while k < n
                invariant
                    k <= n,
                    counts@.len() == n,
                    e == elim@,
                    forall|t: int| 0 <= t < n ==> counts@[t] == active_count(rat, e, t),
                    found ==> top < k && !elim_has(e, top as int) && bottom < k && !elim_has(
                        e,
                        bottom as int,
                    ),
                    !found ==> forall|t: int| 0 <= t < k ==> #[trigger] elim_has(e, t),
                    found ==> forall|t: int|
                        0 <= t < k && !#[trigger] elim_has(e, t) ==> counts@[t] <= counts@[top as int]
                            && counts@[t] >= counts@[bottom as int],
                    found ==> forall|t: int|
                        0 <= t < top && !#[trigger] elim_has(e, t) ==> counts@[t] < counts@[top as int],
                    found ==> forall|t: int|
                        0 <= t < bottom && !#[trigger] elim_has(e, t) ==> counts@[t] > counts@[bottom as int],
                decreases n - k,
            {
                if !contains_exec(&elim, k) {
                    if !found {
                        top = k;
                        bottom = k;
                        found = true;
                    } else {
                        if counts[k] > counts[top] {
                            top = k;
                        }
                        if counts[k] < counts[bottom] {
                            bottom = k;
                        }
                    }
                }
                k = k + 1;
            }
            proof {
                if !found {
                    let j0 = choose|j: int| 0 <= j < n && !#[trigger] elim_has(e, j);
                    assert(false);
                }
            }
            // The audit tally: every surviving option, in option order.
            let mut vote_tally: Vec<VoteCount> = Vec::new();
            let mut j2: usize = 0;
            while j2 < n
                invariant
                    j2 <= n,
                    n == options@.len(),
                    counts@.len() == n,
                    e == elim@,
                    total == rat.len(),
                    total <= 0x1000_0000,
                    forall|t: int| 0 <= t < n ==> counts@[t] == active_count(rat, e, t),
                    forall|t: int| 0 <= t < n ==> counts@[t] <= rat.len(),
                    forall|i1: int, i2: int|
                        0 <= i1 < i2 < vote_tally@.len() ==> (#[trigger] vote_tally@[i1]).option_index
                            < (#[trigger] vote_tally@[i2]).option_index,
                    forall|i: int|
                        0 <= i < vote_tally@.len() ==> {
                            let t = #[trigger] vote_tally@[i];
                            &&& t.option_index < j2
                            &&& !elim_has(e, t.option_index as int)
                            &&& t.votes == active_count(rat, e, t.option_index as int)
                            &&& t.option@ == options@[t.option_index as int]@
                        },
                    forall|j3: int|
                        0 <= j3 < j2 && !elim_has(e, j3) ==> #[trigger] tally_has(vote_tally@, j3),
                decreases n - j2,
            {
                if !contains_exec(&elim, j2) {
                    let ghost pre_tally = vote_tally@;
                    vote_tally.push(
                        VoteCount {
                            option: options[j2].clone(),
                            option_index: j2,
                            votes: counts[j2] as i64,
                        },
                    );
                    proof {
                        assert forall|j3: int| 0 <= j3 < j2 + 1 && !elim_has(e, j3) implies
                            #[trigger] tally_has(vote_tally@, j3) by {
                            if j3 < j2 {
                                assert(tally_has(pre_tally, j3));
                                let i = choose|i: int|
                                    0 <= i < pre_tally.len() && (#[trigger] pre_tally[i]).option_index
                                        as int == j3;
                                assert(vote_tally@[i].option_index as int == j3);
                            } else {
                                assert(vote_tally@[vote_tally@.len() - 1].option_index as int == j3);
                            }
                        }
                    }
                } else {
                    proof {
                        assert forall|j3: int| 0 <= j3 < j2 + 1 && !elim_has(e, j3) implies
                            #[trigger] tally_has(vote_tally@, j3) by {
                            assert(j3 != j2);
                        }
                    }
                }
                j2 = j2 + 1;
            }
            let round = Round { eliminated_candidates: crate::ballots::copy_vec(&elim), vote_tally };
            proof {
                assert(elim@.take(elim@.len() as int) =~= elim@);
            }
            let ghost pre_rounds = rounds@;
            rounds.push(round);
            if counts[top] > total / 2 {
                winner_ix = top;
                done = true;
                proof {
                    let lastr = rounds@[rounds@.len() - 1];
                    assert(lastr.eliminated_candidates@ == elim@.take(elim@.len() as int));
                    assert(elim@.take(elim@.len() as int) =~= e);
                    assert(2 * (total / 2) <= total);
                    assert(2 * active_count(rat, e, top as int) > rat.len());
                    assert(has_majority(lastr, rat, n as int));
                    assert forall|j3: int| 0 <= j3 < n && !elim_has(e, j3) implies #[trigger] active_count(
                        rat,
                        e,
                        j3,
                    ) <= active_count(rat, e, top as int) by {}
                    assert(is_round_top(rat, lastr.eliminated_candidates@, n as int, top as int));
                }
            } else if elim.len() == n - 1 {
                winner_ix = top;
                done = true;
                proof {
                    let lastr = rounds@[rounds@.len() - 1];
                    assert(lastr.eliminated_candidates@ == elim@.take(elim@.len() as int));
                    assert(elim@.take(elim@.len() as int) =~= e);
                    assert forall|j3: int| 0 <= j3 < n && !elim_has(e, j3) implies #[trigger] active_count(
                        rat,
                        e,
                        j3,
                    ) <= active_count(rat, e, top as int) by {}
                    assert(is_round_top(rat, lastr.eliminated_candidates@, n as int, top as int));
                }
            } else {
                proof {
                    assert forall|j3: int| 0 <= j3 < n && !elim_has(e, j3) implies 2 * #[trigger] active_count(
                        rat,
                        e,
                        j3,
                    ) <= rat.len() by {
                        assert(active_count(rat, e, j3) <= active_count(rat, e, top as int));
                        assert(2 * active_count(rat, e, top as int) <= rat.len());
                    }
                }
                let ghost pre_elim = elim@;
                elim.push(bottom);
                proof {
                    assert(elim@.drop_last() =~= pre_elim);
                    assert(elim@.take(elim@.len() - 1) =~= pre_elim);
                    assert(pre_elim =~= e);
                    assert(elim@[elim@.len() - 1] == bottom);
                    assert(is_round_loser(rat, e, n as int, bottom as int));
                    assert forall|t: int| 0 < t <= elim@.len() implies #[trigger] is_round_loser(
                        rat,
                        elim@.take(t - 1),
                        n as int,
                        elim@[t - 1] as int,
                    ) by {
                        if t < elim@.len() {
                            assert(is_round_loser(rat, pre_elim.take(t - 1), n as int, pre_elim[t - 1] as int));
                            assert(elim@.take(t - 1) =~= pre_elim.take(t - 1));
                        } else {
                            assert(elim@.take(t - 1) =~= e);
                        }
                    }
                    assert forall|t: int| 0 <= t < rounds@.len() implies (
                    #[trigger] rounds@[t]).eliminated_candidates@ == elim@.take(t) by {
                        assert(rounds@[t].eliminated_candidates@ == pre_elim.take(t));
                        assert(pre_elim.take(t) =~= elim@.take(t));
                    }
                }
            }
        }
        let winner = options[winner_ix].clone();
        proof {
            assert forall|t: int| 0 < t < rounds@.len() implies (
            #[trigger] rounds@[t]).eliminated_candidates@.drop_last()
                == rounds@[t - 1].eliminated_candidates@ && is_round_loser(
                rat,
                rounds@[t - 1].eliminated_candidates@,
                n as int,
                rounds@[t].eliminated_candidates@.last() as int,
            ) by {
                assert(rounds@[t].eliminated_candidates@ == elim@.take(t));
                assert(rounds@[t - 1].eliminated_candidates@ == elim@.take(t - 1));
                assert(elim@.take(t).drop_last() =~= elim@.take(t - 1));
                assert(elim@.take(t).last() == elim@[t - 1]);
                assert(is_round_loser(rat, elim@.take(t - 1), n as int, elim@[t - 1] as int));
            }
            assert forall|i: int| 0 <= i < option_ratings@.len() implies
                MandatoryPreferentialBallot::valid_fill((#[trigger] option_ratings@[i])@) by {}
        }
        let votes: Vec<MandatoryPreferentialBallot> = fill(option_ratings);
        let bundles = vote_bundle(&votes);
        proof {
            assert(ballot_views(votes@) =~= pref_ballot_views(rat));
        }
        PreferentialResult {
            winner,
            winner_index: winner_ix,
            total_votes: total,
            rounds,
            bundles,
        }
    }
}

} // verus!
