use voties::anti_plurality;
use voties::approval::Approval;
use voties::election::ElectionOption;
use voties::first_pass_the_post::FirstPastThePost;
use voties::good_ok_bad::GoodOkBadElection;
use voties::preferential::Preferential;
use voties::ratings::OptionRating;
use voties::star::Star;
use voties::usual_judgment;

fn three_options() -> Vec<ElectionOption> {
    vec![ElectionOption::DoNothing, ElectionOption::MoneyHole, ElectionOption::Mint]
}

fn ballot(entries: &[(usize, i32)]) -> Vec<OptionRating> {
    entries.iter().map(|&(option_index, rating)| OptionRating { option_index, rating }).collect()
}

#[test]
fn fptp_majority_winner() {
    // Ballots [A, A, A, B, B, C]: three voters top-rank option 0, two option
    // 1, one option 2; First-Past-The-Post picks option 0.
    let options = three_options();
    let ratings = vec![
        ballot(&[(0, 30), (1, 20), (2, 10)]),
        ballot(&[(0, 30), (1, 20), (2, 10)]),
        ballot(&[(0, 30), (2, 20), (1, 10)]),
        ballot(&[(1, 30), (0, 20), (2, 10)]),
        ballot(&[(1, 30), (2, 20), (0, 10)]),
        ballot(&[(2, 30), (0, 20), (1, 10)]),
    ];
    let result = FirstPastThePost::result(&options, &ratings);
    assert_eq!(result.winner_index, 0);
    assert!(matches!(result.winner, ElectionOption::DoNothing));
    assert_eq!(result.total_votes, 6);
    // Conservation: the bundle counts sum to the number of voters.
    let sum: usize = result.vote_bundle.iter().map(|b| b.votes).sum();
    assert_eq!(sum, 6);
}

#[test]
fn fptp_bundles_group_identical_ballots() {
    let options = three_options();
    let ratings = vec![
        ballot(&[(0, 30), (1, 20), (2, 10)]),
        ballot(&[(0, 30), (1, 20), (2, 10)]),
        ballot(&[(1, 30), (0, 20), (2, 10)]),
    ];
    let result = FirstPastThePost::result(&options, &ratings);
    assert_eq!(result.vote_bundle.len(), 2);
    assert_eq!(result.vote_bundle[0].votes, 2);
    assert_eq!(result.vote_bundle[0].ballot.voted_for, 0);
    assert_eq!(result.vote_bundle[1].votes, 1);
    assert_eq!(result.vote_bundle[1].ballot.voted_for, 1);
}

#[test]
fn approval_counts_every_approving_voter() {
    let options = three_options();
    // Option 1 is approved by all three voters, option 0 by two, option 2 by
    // nobody.
    let ratings = vec![
        ballot(&[(0, 30), (1, 20), (2, -10)]),
        ballot(&[(1, 30), (0, 20), (2, -20)]),
        ballot(&[(1, 20), (0, 0), (2, -30)]),
    ];
    let result = Approval::result(&options, &ratings);
    assert_eq!(result.winner_index, 1);
    assert_eq!(result.vote_count.len(), 3);
    assert_eq!(result.vote_count[0].votes, 2);
    assert_eq!(result.vote_count[1].votes, 3);
    assert_eq!(result.vote_count[2].votes, 0);
    assert_eq!(result.total_votes, 3);
}

#[test]
fn approval_tie_goes_to_lowest_index() {
    let options = three_options();
    let ratings = vec![
        ballot(&[(0, 30), (1, 20), (2, -10)]),
        ballot(&[(1, 30), (0, 20), (2, -20)]),
    ];
    // Options 0 and 1 both have two approvals; the lower index wins.
    let result = Approval::result(&options, &ratings);
    assert_eq!(result.winner_index, 0);
}

#[test]
fn approval_extra_approving_ballot_never_hurts() {
    // One more ballot approving the current winner raises its total by one
    // and leaves options it does not approve unchanged.
    let options = three_options();
    let mut ratings = vec![
        ballot(&[(0, 30), (1, 20), (2, -10)]),
        ballot(&[(0, 30), (1, 20), (2, -20)]),
        ballot(&[(1, 30), (0, -10), (2, -30)]),
    ];
    let before = Approval::result(&options, &ratings);
    assert_eq!(before.winner_index, 1);
    ratings.push(ballot(&[(1, 30), (0, -10), (2, -30)]));
    let after = Approval::result(&options, &ratings);
    assert_eq!(after.vote_count[1].votes, before.vote_count[1].votes + 1);
    assert_eq!(after.vote_count[0].votes, before.vote_count[0].votes);
    assert_eq!(after.vote_count[2].votes, before.vote_count[2].votes);
    assert_eq!(after.winner_index, 1);
}

#[test]
fn anti_plurality_three_way_tie_is_deterministic() {
    // Three ballots, each ranking a different option last: every option
    // collects exactly one least-favorite vote, and the documented rule
    // resolves the tie to the lowest option index.
    let options = three_options();
    let ratings = vec![
        ballot(&[(1, 30), (2, 20), (0, 10)]),
        ballot(&[(0, 30), (2, 20), (1, 10)]),
        ballot(&[(0, 30), (1, 20), (2, 10)]),
    ];
    let result = anti_plurality::result(&options, &ratings);
    assert_eq!(result.vote_tally.len(), 3);
    assert_eq!(result.vote_tally[0].votes, 1);
    assert_eq!(result.vote_tally[1].votes, 1);
    assert_eq!(result.vote_tally[2].votes, 1);
    assert_eq!(result.winner_index, 0);
}

#[test]
fn anti_plurality_fewest_last_votes_wins() {
    let options = three_options();
    let ratings = vec![
        ballot(&[(1, 30), (2, 20), (0, 10)]),
        ballot(&[(1, 30), (2, 20), (0, 10)]),
        ballot(&[(0, 30), (2, 20), (1, 10)]),
    ];
    // Option 0 is named least favourite twice, option 1 once, option 2 never.
    let result = anti_plurality::result(&options, &ratings);
    assert_eq!(result.winner_index, 2);
}

#[test]
fn star_runoff_matches_hand_computed_example() {
    // Scores on the 0..=5 scale: rating 30 -> 5, 10 -> 4, -30 -> 0.
    // Voters 1 and 2 score option 0 above option 1; voter 3 the reverse.
    // Totals: option 0 = 14, option 1 = 13, option 2 = 0, so options 0 and 1
    // are the finalists and option 0 wins the runoff 2 to 1.
    let options = three_options();
    let ratings = vec![
        ballot(&[(0, 30), (1, 10), (2, -30)]),
        ballot(&[(0, 30), (1, 10), (2, -30)]),
        ballot(&[(1, 30), (0, 10), (2, -30)]),
    ];
    let result = Star::result(&options, &ratings);
    assert_eq!(result.score_tally[0].score, 14);
    assert_eq!(result.score_tally[1].score, 13);
    assert_eq!(result.score_tally[2].score, 0);
    assert_eq!(result.runoff.a.option_index, 0);
    assert_eq!(result.runoff.b.option_index, 1);
    assert_eq!(result.runoff.a.votes, 2);
    assert_eq!(result.runoff.b.votes, 1);
    assert_eq!(result.winner_index, 0);
}

#[test]
fn star_tied_runoff_goes_to_first_finalist() {
    let options = three_options();
    // Both voters are indifferent between the finalists on their own
    // ballots, so the runoff is 0 to 0 and the first finalist wins.
    let ratings = vec![
        ballot(&[(0, 30), (1, 30), (2, -30)]),
        ballot(&[(0, 10), (1, 10), (2, -30)]),
    ];
    let result = Star::result(&options, &ratings);
    assert_eq!(result.runoff.a.option_index, 0);
    assert_eq!(result.runoff.a.votes, 0);
    assert_eq!(result.runoff.b.votes, 0);
    assert_eq!(result.winner_index, 0);
}

#[test]
fn good_ok_bad_runoff_prefers_fewer_bad_grades() {
    // Grades: rating >= 20 is Good, >= -10 is Ok, below is Bad.
    let options = three_options();
    let ratings = vec![
        ballot(&[(0, 30), (1, 20), (2, -20)]),
        ballot(&[(0, 30), (1, 20), (2, -20)]),
        ballot(&[(1, 30), (0, -20), (2, -30)]),
    ];
    // Good counts: option 0 = 2, option 1 = 3, option 2 = 0.
    // Bad counts: option 0 = 1, option 1 = 0, option 2 = 3.
    let result = GoodOkBadElection::result(&options, &ratings);
    assert_eq!(result.tally[0].good, 2);
    assert_eq!(result.tally[1].good, 3);
    assert_eq!(result.tally[2].good, 0);
    assert_eq!(result.tally[0].bad, 1);
    assert_eq!(result.tally[1].bad, 0);
    assert_eq!(result.tally[2].bad, 3);
    // Finalists are options 1 (0 Bad) and 0 (1 Bad); two voters grade 0
    // above 1 is false here: voters 1 and 2 grade both Good, voter 3 grades
    // 1 Good and 0 Bad, so option 1 wins the runoff 1 to 0.
    assert_eq!(result.runoff.a.option_index, 1);
    assert_eq!(result.runoff.b.option_index, 0);
    assert_eq!(result.winner_index, 1);
}

#[test]
fn preferential_majority_shortcut_ends_in_one_round() {
    // Option 0 is the first choice of more than half the voters, so the
    // round list ends immediately with nothing eliminated.
    let options = three_options();
    let ratings = vec![
        ballot(&[(0, 30), (1, 20), (2, 10)]),
        ballot(&[(0, 30), (2, 20), (1, 10)]),
        ballot(&[(1, 30), (0, 20), (2, 10)]),
    ];
    let result = Preferential::result(&options, &ratings);
    assert_eq!(result.rounds.len(), 1);
    assert_eq!(result.rounds[0].eliminated_candidates.len(), 0);
    assert_eq!(result.winner_index, 0);
    assert_eq!(result.total_votes, 3);
}

#[test]
fn preferential_elimination_transfers_votes() {
    // First choices: 0 twice, 1 twice, 2 once: no majority, option 2 is
    // eliminated, and its voter's next choice (option 1) decides the race.
    let options = three_options();
    let ratings = vec![
        ballot(&[(0, 30), (1, 20), (2, 10)]),
        ballot(&[(0, 30), (1, 20), (2, 10)]),
        ballot(&[(1, 30), (0, 20), (2, 10)]),
        ballot(&[(1, 30), (2, 20), (0, 10)]),
        ballot(&[(2, 30), (1, 20), (0, 10)]),
    ];
    let result = Preferential::result(&options, &ratings);
    assert_eq!(result.rounds.len(), 2);
    assert_eq!(result.rounds[1].eliminated_candidates, vec![2]);
    assert_eq!(result.winner_index, 1);
}

#[test]
fn usual_judgment_highest_majority_grade_wins() {
    // On the 0..=6 scale: rating 30 -> 6, 20 -> 6, 10 -> 5, 0 -> 4.
    let options = three_options();
    let ratings = vec![
        ballot(&[(0, 30), (1, 0), (2, -30)]),
        ballot(&[(0, 30), (1, 0), (2, -30)]),
        ballot(&[(1, 30), (0, 20), (2, -30)]),
    ];
    // Majority grades (median-like): option 0 = 6, option 1 = 4, option 2 = 0.
    let result = usual_judgment::result(&options, &ratings);
    assert_eq!(result.winner_index, 0);
    assert_eq!(result.counts.len(), 3);
    assert_eq!(result.counts[0].scores, vec![6, 6, 6]);
    assert_eq!(result.counts[1].tallies, vec![0, 0, 0, 0, 2, 0, 1]);
}

#[test]
fn usual_judgment_tie_break_prefers_more_support_above() {
    let options = three_options();
    // Options 0 and 1 share the same majority grade; option 1 has more
    // ballots strictly above it, so it wins the tie-break.
    let ratings = vec![
        ballot(&[(0, 10), (1, 10), (2, -30)]),
        ballot(&[(0, 10), (1, 10), (2, -30)]),
        ballot(&[(1, 30), (0, 10), (2, -30)]),
    ];
    let result = usual_judgment::result(&options, &ratings);
    assert_eq!(result.winner_index, 1);
}
