//! Approval: every voter approves all options they rate at least
//! `SLIGHTLY_POSITIVE`; the option approved by the most voters wins.  Ties go
//! to the lowest option index, and the per-option breakdown is kept in
//! option order.

use vstd::prelude::*;
use crate::ballots::{fill, MultipleOptionBallot, VotingMethod};
use crate::bundles::{
    ballot_views, bundles_group, bundles_sorted, total_bundle_votes, vote_bundle, VoteBundle,
};
use crate::election::{ElectionOption, VoteCount};
use crate::ratings::OptionRating;
use crate::tallies::{
    all_complete, approval_count, approves_option, argmax_usize, rating_for, ratings_view,
};
use crate::want_level;

verus! {

/// The approval ballots each voter would cast, one view per voter.
pub open spec fn approval_ballot_views(rat: Seq<Seq<OptionRating>>) -> Seq<Seq<int>> {
    Seq::new(rat.len(), |i: int| crate::ballots::approved_seq(rat[i]))
}

pub struct ApprovalResult {
    pub winner: ElectionOption,
    pub winner_index: usize,
    pub total_votes: usize,
    pub vote_count: Vec<VoteCount>,
    pub bundles: Vec<VoteBundle<MultipleOptionBallot>>,
}

/// What an Approval result must look like: the winner is the lowest-index
/// option with the most approvals, the breakdown lists every option's
/// approval total in option order, and the bundles faithfully group all cast
/// ballots.
pub open spec fn approval_valid(
    r: ApprovalResult,
    options: Seq<ElectionOption>,
    rat: Seq<Seq<OptionRating>>,
) -> bool {
    &&& r.total_votes == rat.len()
    &&& r.winner_index < options.len()
    &&& r.winner@ == options[r.winner_index as int]@
    &&& forall|j: int|
        0 <= j < options.len() ==> #[trigger] approval_count(rat, j) <= approval_count(
            rat,
            r.winner_index as int,
        )
    &&& forall|j: int|
        0 <= j < r.winner_index ==> #[trigger] approval_count(rat, j) < approval_count(
            rat,
            r.winner_index as int,
        )
    &&& r.vote_count@.len() == options.len()
    &&& forall|j: int|
        0 <= j < options.len() ==> (#[trigger] r.vote_count@[j]).option_index == j
            && r.vote_count@[j].votes == approval_count(rat, j) && r.vote_count@[j].option@
            == options[j]@
    &&& bundles_group(r.bundles@, approval_ballot_views(rat))
    &&& bundles_sorted(r.bundles@)
    &&& total_bundle_votes(r.bundles@) == rat.len()
}

pub struct Approval;

impl Approval {
    pub fn result(options: &Vec<ElectionOption>, option_ratings: &Vec<Vec<OptionRating>>) -> (r:
        ApprovalResult)
        requires
            options@.len() >= 1,
            1 <= option_ratings@.len() <= 0x7fff_ffff_ffff_ffff,
            all_complete(ratings_view(option_ratings@), options@.len() as int),
        ensures
            approval_valid(r, options@, ratings_view(option_ratings@)),
    {
        let ghost rat = ratings_view(option_ratings@);
        let n = options.len();
        let mut tally: Vec<usize> = Vec::new();
        let mut j: usize = 0;
        while j < n
            invariant
                j <= n,
                n == options@.len(),
                rat == ratings_view(option_ratings@),
                all_complete(rat, n as int),
                n >= 1,
                tally@.len() == j,
                forall|t: int| 0 <= t < j ==> tally@[t] == approval_count(rat, t),
                forall|t: int| 0 <= t < j ==> tally@[t] <= rat.len(),
            decreases n - j,
        {
            let mut c: usize = 0;
            let mut i: usize = 0;
            while i < option_ratings.len()
                invariant
                    i <= rat.len(),
                    rat == ratings_view(option_ratings@),
                    all_complete(rat, n as int),
                    n >= 1,
                    j < n,
                    c <= i,
                    c == approval_count(rat.take(i as int), j as int),
                decreases rat.len() - i,
            {
                proof {
                    assert(rat.take(i + 1).drop_last() =~= rat.take(i as int));
                    assert(rat.take(i + 1).last() == rat[i as int]);
                    assert(rat[i as int] == option_ratings@[i as int]@);
                }
                if rating_for(&option_ratings[i], j) >= want_level::SLIGHTLY_POSITIVE {
                    c = c + 1;
                }
                i = i + 1;
            }
            proof {
                assert(rat.take(rat.len() as int) =~= rat);
            }
            tally.push(c);
            j = j + 1;
        }
        let w = argmax_usize(&tally);
        let winner = options[w].clone();
        let mut vote_count: Vec<VoteCount> = Vec::new();
        let mut j2: usize = 0;
        while j2 < n
            invariant
                j2 <= n,
                n == options@.len(),
                tally@.len() == n,
                forall|t: int| 0 <= t < n ==> tally@[t] == approval_count(rat, t),
                forall|t: int| 0 <= t < n ==> tally@[t] <= rat.len(),
                rat.len() <= 0x7fff_ffff_ffff_ffff,
                n == options@.len(),
                vote_count@.len() == j2,
                forall|t: int|
                    0 <= t < j2 ==> (#[trigger] vote_count@[t]).option_index == t
                        && vote_count@[t].votes == approval_count(rat, t) && vote_count@[t].option@
                        == options@[t]@,
            decreases n - j2,
        {
            vote_count.push(
                VoteCount {
                    option: options[j2].clone(),
                    option_index: j2,
                    votes: tally[j2] as i64,
                },
            );
            j2 = j2 + 1;
        }
        proof {
            assert forall|i: int| 0 <= i < option_ratings@.len() implies
                MultipleOptionBallot::valid_fill((#[trigger] option_ratings@[i])@) by {}
        }
        let votes: Vec<MultipleOptionBallot> = fill(option_ratings);
        let bundles = vote_bundle(&votes);
        proof {
            assert(ballot_views(votes@) =~= approval_ballot_views(rat));
        }
        ApprovalResult {
            winner,
            winner_index: w,
            total_votes: votes.len(),
            vote_count,
            bundles,
        }
    }
}

/// Adding one more approving ballot for option `x` raises `x`'s approval
/// total by exactly one, leaves the total of any option the new ballot does
/// not approve unchanged, and so never makes a previously winning `x` lose
/// to such an option.
pub proof fn lemma_approval_monotonic(
    rat: Seq<Seq<OptionRating>>,
    b: Seq<OptionRating>,
    x: int,
    j: int,
)
    requires
        approves_option(b, x),
        !approves_option(b, j),
        approval_count(rat, j) <= approval_count(rat, x),
    ensures
        approval_count(rat.push(b), x) == approval_count(rat, x) + 1,
        approval_count(rat.push(b), j) == approval_count(rat, j),
        approval_count(rat.push(b), j) < approval_count(rat.push(b), x),
{
    assert(rat.push(b).drop_last() =~= rat);
    assert(rat.push(b).last() == b);
}

} // verus!
