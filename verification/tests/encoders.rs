use voties::ballots::{
    get_thresholds_scores, GoodBadOkBallot, GoodOkBad, LeastFavoriteSingleOptionBallot,
    MandatoryPreferentialBallot, MultipleOptionBallot, ScoreBallot, SingleOptionBallot,
    VotingMethod,
};
use voties::bundles::vote_bundle;
use voties::death::DeathReason;
use voties::energy::Energy;
use voties::hunger::{Food, FoodGroup, FoodPreferences, Stomach};
use voties::ratings::OptionRating;
use voties::score_count::get_score_counts;

fn ballot(entries: &[(usize, i32)]) -> Vec<OptionRating> {
    entries.iter().map(|&(option_index, rating)| OptionRating { option_index, rating }).collect()
}

#[test]
fn single_option_ballot_takes_the_top_choice() {
    let b = SingleOptionBallot::fill(&ballot(&[(2, 30), (0, 20), (1, 10)]));
    assert_eq!(b.voted_for, 2);
}

#[test]
fn least_favorite_ballot_takes_the_bottom_choice() {
    let b = LeastFavoriteSingleOptionBallot::fill(&ballot(&[(2, 30), (0, 20), (1, 10)]));
    assert_eq!(b.least_favorite, 1);
}

#[test]
fn approval_ballot_takes_everything_slightly_positive_or_better() {
    let b = MultipleOptionBallot::fill(&ballot(&[(2, 30), (0, 10), (1, 0)]));
    assert_eq!(b.voted_for, vec![2, 0]);
}

#[test]
fn preferential_ballot_keeps_the_full_ranking() {
    let b = MandatoryPreferentialBallot::fill(&ballot(&[(2, 30), (0, 20), (1, 10)]));
    assert_eq!(b.votes, vec![2, 0, 1]);
}

#[test]
fn good_ok_bad_ballot_grades_by_thresholds() {
    let b = GoodBadOkBallot::fill(&ballot(&[(2, 30), (0, 20), (1, -10), (3, -20)]));
    assert!(matches!(b.votes[0], GoodOkBad::Good));
    assert!(matches!(b.votes[1], GoodOkBad::Okay));
    assert!(matches!(b.votes[2], GoodOkBad::Good));
    assert!(matches!(b.votes[3], GoodOkBad::Bad));
}

#[test]
fn star_scale_thresholds_sample_the_seven_levels() {
    let thresholds = get_thresholds_scores(5);
    let pairs: Vec<(i32, i32)> = thresholds.iter().map(|t| (t.rating, t.score)).collect();
    assert_eq!(pairs, vec![(20, 5), (10, 4), (0, 3), (-10, 2), (-20, 1), (-30, 0)]);
}

#[test]
fn judgment_scale_thresholds_sample_the_seven_levels() {
    let thresholds = get_thresholds_scores(6);
    let pairs: Vec<(i32, i32)> = thresholds.iter().map(|t| (t.rating, t.score)).collect();
    assert_eq!(pairs, vec![(20, 6), (10, 5), (0, 4), (-10, 3), (-20, 2), (-30, 1), (-30, 0)]);
}

#[test]
fn score_ballot_maps_ratings_monotonically() {
    let b: ScoreBallot<5> = ScoreBallot::fill(&ballot(&[(0, 30), (1, 10), (2, 0), (3, -30)]));
    assert_eq!(b.votes, vec![5, 4, 3, 0]);
    // A strictly higher rating never earns a lower score.
    let graded: ScoreBallot<5> = ScoreBallot::fill(&ballot(&[
        (0, 30),
        (1, 20),
        (2, 10),
        (3, 0),
        (4, -10),
        (5, -20),
        (6, -30),
    ]));
    for pair in graded.votes.windows(2) {
        assert!(pair[0] >= pair[1]);
    }
}

#[test]
fn out_of_scale_ratings_fall_into_the_end_buckets() {
    let b: ScoreBallot<5> = ScoreBallot::fill(&ballot(&[(0, 95), (1, -95)]));
    assert_eq!(b.votes, vec![5, 0]);
}

#[test]
fn bundling_groups_and_sorts_by_count() {
    let votes = vec![
        SingleOptionBallot { voted_for: 1 },
        SingleOptionBallot { voted_for: 0 },
        SingleOptionBallot { voted_for: 1 },
    ];
    let bundles = vote_bundle(&votes);
    assert_eq!(bundles.len(), 2);
    assert_eq!(bundles[0].ballot.voted_for, 1);
    assert_eq!(bundles[0].votes, 2);
    assert_eq!(bundles[1].ballot.voted_for, 0);
    assert_eq!(bundles[1].votes, 1);
    let sum: usize = bundles.iter().map(|b| b.votes).sum();
    assert_eq!(sum, votes.len());
}

#[test]
fn score_counts_sort_and_tally_each_option() {
    let votes: Vec<ScoreBallot<6>> = vec![
        ScoreBallot { votes: vec![6, 3] },
        ScoreBallot { votes: vec![4, 3] },
        ScoreBallot { votes: vec![5, 0] },
    ];
    let counts = get_score_counts(&votes);
    assert_eq!(counts.len(), 2);
    assert_eq!(counts[0].scores, vec![4, 5, 6]);
    assert_eq!(counts[0].tallies, vec![0, 0, 0, 0, 1, 1, 1]);
    assert_eq!(counts[1].scores, vec![0, 3, 3]);
    assert_eq!(counts[0].median(), 5);
    assert_eq!(counts[1].median(), 3);
    // Majority grades: the lowest grade where the cumulative count reaches
    // half the ballots.
    assert_eq!(counts[0].majority(), 5);
    assert_eq!(counts[1].majority(), 3);
}

#[test]
fn all_seven_food_groups_are_listed() {
    let groups = FoodGroup::all();
    assert_eq!(groups.len(), 7);
    assert!(matches!(groups[0], FoodGroup::Fruit));
    assert!(matches!(groups[6], FoodGroup::Sugar));
}

#[test]
fn food_preferences_veto_refused_groups() {
    let prefs = FoodPreferences::new(vec![FoodGroup::Meat], vec![FoodGroup::Grain]);
    let stew = Food { kcal: 500, ml: 400, groups: vec![FoodGroup::Meat, FoodGroup::Fat] };
    let bread = Food { kcal: 300, ml: 200, groups: vec![FoodGroup::Grain] };
    assert!(!prefs.will_eat(&stew));
    assert!(prefs.will_eat(&bread));
}

#[test]
fn farms_grow_food_in_batches_of_five() {
    let template = voties::hunger::FoodTemplate {
        name: "Barley".to_string(),
        kcal: 300,
        ml: 200,
        groups: vec![FoodGroup::Grain],
        difficulty: 2,
    };
    let food = template.get_food();
    assert_eq!(food.kcal, 1500);
    assert_eq!(food.ml, 1000);
    assert_eq!(food.groups, vec![FoodGroup::Grain]);
}

#[test]
fn stomach_capacity_limits_eating() {
    let stomach = Stomach::new(1000, 800);
    let small = Food { kcal: 100, ml: 200, groups: vec![FoodGroup::Fruit] };
    let large = Food { kcal: 100, ml: 201, groups: vec![FoodGroup::Fruit] };
    assert!(stomach.can_eat(&small));
    assert!(!stomach.can_eat(&large));
}

#[test]
fn energy_burn_saturates_at_zero() {
    let mut energy = Energy::new(100, 1000);
    energy.use_kcal(40);
    assert_eq!(energy.current_kcal, 60);
    energy.use_kcal(100);
    assert_eq!(energy.current_kcal, 0);
}

#[test]
fn death_reason_messages() {
    assert_eq!(DeathReason::Starvation.get_at_risk_message(), "I am starving");
    assert_eq!(DeathReason::Homeliness.get_reason_of_death_message(), "Exposure");
    assert_eq!(DeathReason::OldAge.get_at_risk_message(), "I am old");
}
