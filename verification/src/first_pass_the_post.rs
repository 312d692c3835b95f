//! First-Past-The-Post: every voter names one option (their top-rated one);
//! the option named most often wins.  Ties go to the lowest option index.

use vstd::prelude::*;
use crate::ballots::{fill, SingleOptionBallot, VotingMethod};
use crate::bundles::{
    ballot_views, bundles_group, bundles_sorted, total_bundle_votes, vote_bundle, VoteBundle,
};
use crate::election::ElectionOption;
use crate::ratings::OptionRating;
use crate::tallies::{all_complete, argmax_usize, first_choice, fptp_count, ratings_view};

verus! {

/// The single-choice ballots each voter would cast, one view per voter.
pub open spec fn fptp_ballot_views(rat: Seq<Seq<OptionRating>>) -> Seq<Seq<int>> {
    Seq::new(rat.len(), |i: int| seq![first_choice(rat[i])])
}

pub struct FirstPastThePostResult {
    pub winner: ElectionOption,
    pub winner_index: usize,
    pub total_votes: usize,
    pub vote_bundle: Vec<VoteBundle<SingleOptionBallot>>,
}

/// What a First-Past-The-Post result must look like for the given options
/// and rating vectors: the winner is the lowest-index option with the most
/// first-choice votes, and the bundles faithfully group all cast ballots.
pub open spec fn fptp_valid(
    r: FirstPastThePostResult,
    options: Seq<ElectionOption>,
    rat: Seq<Seq<OptionRating>>,
) -> bool {
    &&& r.total_votes == rat.len()
    &&& r.winner_index < options.len()
    &&& r.winner@ == options[r.winner_index as int]@
    &&& forall|j: int|
        0 <= j < options.len() ==> #[trigger] fptp_count(rat, j) <= fptp_count(
            rat,
            r.winner_index as int,
        )
    &&& forall|j: int|
        0 <= j < r.winner_index ==> #[trigger] fptp_count(rat, j) < fptp_count(
            rat,
            r.winner_index as int,
        )
    &&& bundles_group(r.vote_bundle@, fptp_ballot_views(rat))
    &&& bundles_sorted(r.vote_bundle@)
    &&& total_bundle_votes(r.vote_bundle@) == rat.len()
}

pub struct FirstPastThePost;

impl FirstPastThePost {
    pub fn result(options: &Vec<ElectionOption>, option_ratings: &Vec<Vec<OptionRating>>) -> (r:
        FirstPastThePostResult)
        requires
            options@.len() >= 1,
            option_ratings@.len() >= 1,
            all_complete(ratings_view(option_ratings@), options@.len() as int),
        ensures
            fptp_valid(r, options@, ratings_view(option_ratings@)),
    {
        let ghost rat = ratings_view(option_ratings@);
        let n = options.len();
        let mut tally: Vec<usize> = Vec::new();
        let mut j: usize = 0;
        while j < n
            invariant
                j <= n,
                n == options@.len(),
                rat == ratings_view(option_ratings@),
                all_complete(rat, n as int),
                n >= 1,
                tally@.len() == j,
                forall|t: int| 0 <= t < j ==> tally@[t] == fptp_count(rat, t),
            decreases n - j,
        {
            let mut c: usize = 0;
            let mut i: usize = 0;
            while i < option_ratings.len()
                invariant
                    i <= rat.len(),
                    rat == ratings_view(option_ratings@),
                    all_complete(rat, n as int),
                    n >= 1,
                    j < n,
                    c <= i,
                    c == fptp_count(rat.take(i as int), j as int),
                decreases rat.len() - i,
            {
                proof {
                    assert(rat.take(i + 1).drop_last() =~= rat.take(i as int));
                    assert(rat.take(i + 1).last() == rat[i as int]);
                    assert(rat[i as int].len() == n);
                }
                if option_ratings[i][0].option_index == j {
                    c = c + 1;
                }
                i = i + 1;
            }
            proof {
                assert(rat.take(rat.len() as int) =~= rat);
            }
            tally.push(c);
            j = j + 1;
        }
        let w = argmax_usize(&tally);
        let winner = options[w].clone();
        proof {
            assert forall|i: int| 0 <= i < option_ratings@.len() implies SingleOptionBallot::valid_fill(
                (#[trigger] option_ratings@[i])@,
            ) by {
                assert(rat[i] == option_ratings@[i]@);
            }
        }
        let votes: Vec<SingleOptionBallot> = fill(option_ratings);
        let bundles = vote_bundle(&votes);
        proof {
            assert(ballot_views(votes@) =~= fptp_ballot_views(rat));
        }
        FirstPastThePostResult {
            winner,
            winner_index: w,
            total_votes: votes.len(),
            vote_bundle: bundles,
        }
    }
}

} // verus!
