//! Anti-Plurality: every voter names their least favourite option (the last
//! entry of their descending-sorted rating vector); the option named least
//! often wins.  Ties go to the lowest option index, and the tally breakdown
//! is kept in option order.

use vstd::prelude::*;
use crate::ballots::{fill, LeastFavoriteSingleOptionBallot, VotingMethod};
use crate::bundles::{
    ballot_views, bundles_group, bundles_sorted, total_bundle_votes, vote_bundle, VoteBundle,
};
use crate::election::ElectionOption;
use crate::ratings::OptionRating;
use crate::tallies::{all_complete, argmin_usize, last_choice, last_count, ratings_view};

verus! {

/// One option's count of least-favorite votes.
pub struct VoteTally {
    pub option_index: usize,
    pub votes: usize,
}

/// The least-favorite ballots each voter would cast, one view per voter.
pub open spec fn anti_ballot_views(rat: Seq<Seq<OptionRating>>) -> Seq<Seq<int>> {
    Seq::new(rat.len(), |i: int| seq![last_choice(rat[i])])
}

pub struct AntiPluralityResult {
    pub winner: ElectionOption,
    pub winner_index: usize,
    pub total_votes: usize,
    pub bundles: Vec<VoteBundle<LeastFavoriteSingleOptionBallot>>,
    pub vote_tally: Vec<VoteTally>,
}

/// What an Anti-Plurality result must look like: the winner is the
/// lowest-index option named least favourite by the fewest voters, the tally
/// lists every option's least-favorite count in option order, and the
/// bundles faithfully group all cast ballots.
pub open spec fn anti_plurality_valid(
    r: AntiPluralityResult,
    options: Seq<ElectionOption>,
    rat: Seq<Seq<OptionRating>>,
) -> bool {
    &&& r.total_votes == rat.len()
    &&& r.winner_index < options.len()
    &&& r.winner@ == options[r.winner_index as int]@
    &&& forall|j: int|
        0 <= j < options.len() ==> #[trigger] last_count(rat, j) >= last_count(
            rat,
            r.winner_index as int,
        )
    &&& forall|j: int|
        0 <= j < r.winner_index ==> #[trigger] last_count(rat, j) > last_count(
            rat,
            r.winner_index as int,
        )
    &&& r.vote_tally@.len() == options.len()
    &&& forall|j: int|
        0 <= j < options.len() ==> (#[trigger] r.vote_tally@[j]).option_index == j
            && r.vote_tally@[j].votes == last_count(rat, j)
    &&& bundles_group(r.bundles@, anti_ballot_views(rat))
    &&& bundles_sorted(r.bundles@)
    &&& total_bundle_votes(r.bundles@) == rat.len()
}

pub fn result(options: &Vec<ElectionOption>, option_ratings: &Vec<Vec<OptionRating>>) -> (r:
    AntiPluralityResult)
    requires
        options@.len() >= 1,
        option_ratings@.len() >= 1,
        all_complete(ratings_view(option_ratings@), options@.len() as int),
    ensures
        anti_plurality_valid(r, options@, ratings_view(option_ratings@)),
{
    let ghost rat = ratings_view(option_ratings@);
    let n = options.len();
    let mut tally: Vec<usize> = Vec::new();
    let mut j: usize = 0;
    while j < n
        invariant
            j <= n,
            n == options@.len(),
            rat == ratings_view(option_ratings@),
            all_complete(rat, n as int),
            n >= 1,
            tally@.len() == j,
            forall|t: int| 0 <= t < j ==> tally@[t] == last_count(rat, t),
        decreases n - j,
    {
        let mut c: usize = 0;
        let mut i: usize = 0;
        while i < option_ratings.len()
            invariant
                i <= rat.len(),
                rat == ratings_view(option_ratings@),
                all_complete(rat, n as int),
                n >= 1,
                j < n,
                c <= i,
                c == last_count(rat.take(i as int), j as int),
            decreases rat.len() - i,
        {
            proof {
                assert(rat.take(i + 1).drop_last() =~= rat.take(i as int));
                assert(rat.take(i + 1).last() == rat[i as int]);
                assert(rat[i as int].len() == n);
            }
            let vlen = option_ratings[i].len();
            if option_ratings[i][vlen - 1].option_index == j {
                c = c + 1;
            }
            i = i + 1;
        }
        proof {
            assert(rat.take(rat.len() as int) =~= rat);
        }
        tally.push(c);
        j = j + 1;
    }
    let w = argmin_usize(&tally);
    let winner = options[w].clone();
    let mut vote_tally: Vec<VoteTally> = Vec::new();
    let mut j2: usize = 0;
    while j2 < n
        invariant
            j2 <= n,
            tally@.len() == n,
            forall|t: int| 0 <= t < n ==> tally@[t] == last_count(rat, t),
            vote_tally@.len() == j2,
            forall|t: int|
                0 <= t < j2 ==> (#[trigger] vote_tally@[t]).option_index == t
                    && vote_tally@[t].votes == last_count(rat, t),
        decreases n - j2,
    {
        vote_tally.push(VoteTally { option_index: j2, votes: tally[j2] });
        j2 = j2 + 1;
    }
    proof {
        assert forall|i: int| 0 <= i < option_ratings@.len() implies
            LeastFavoriteSingleOptionBallot::valid_fill((#[trigger] option_ratings@[i])@) by {
            assert(rat[i] == option_ratings@[i]@);
        }
    }
    let votes: Vec<LeastFavoriteSingleOptionBallot> = fill(option_ratings);
    let bundles = vote_bundle(&votes);
    proof {
        assert(ballot_views(votes@) =~= anti_ballot_views(rat));
    }
    AntiPluralityResult {
        winner,
        winner_index: w,
        total_votes: votes.len(),
        bundles,
        vote_tally,
    }
}

} // verus!
