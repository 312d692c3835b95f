use voties::election::{
    create_election, get_options, CloseOutcome, Election, ElectionOption, ElectionType,
    HeldElection, VoterAttributes,
};
use voties::energy::Energy;
use voties::hunger::{FoodCollection, FoodGroup, FoodPreferences, FoodTemplate};
use voties::rng::{Rng, Seed};
use voties::shelter::RequiresHouse;
use voties::voter::Voter;
use voties::world_stats::WorldStats;

fn sample_food() -> FoodTemplate {
    FoodTemplate {
        name: "Barley".to_string(),
        kcal: 300,
        ml: 200,
        groups: vec![FoodGroup::Grain],
        difficulty: 2,
    }
}

fn sample_attributes() -> VoterAttributes {
    VoterAttributes {
        voter: Voter {
            money_care: 5,
            food_care: 10,
            reproductive_care: 0,
            housing_care: 15,
            death_care: 20,
        },
        energy: Some(Energy::new(200, 1000)),
        stomach: None,
        food_preferences: Some(FoodPreferences::new(vec![FoodGroup::Meat], vec![FoodGroup::Grain])),
        reproductive: None,
        housing: Some(RequiresHouse { shelter: None, homeless_for_ms: 0 }),
    }
}

fn open_election(ty: ElectionType) -> Election {
    let options = vec![
        ElectionOption::DoNothing,
        ElectionOption::House(4),
        ElectionOption::MakeFarm(sample_food()),
        ElectionOption::MoneyHole,
        ElectionOption::Mint,
    ];
    Election::new(options, ty)
}

#[test]
fn voting_twice_is_a_no_op() {
    let mut rng = Rng::new(Seed::Number(7));
    let stats = WorldStats::new();
    let mut election = open_election(ElectionType::FirstPastThePost);
    election.vote(&mut rng, 1, &sample_attributes(), &stats);
    assert_eq!(election.votes.len(), 1);
    let first_ratings = election.votes[0].1.clone();
    election.vote(&mut rng, 1, &sample_attributes(), &stats);
    assert_eq!(election.votes.len(), 1);
    assert_eq!(election.votes[0].0, 1);
    for (a, b) in first_ratings.iter().zip(election.votes[0].1.iter()) {
        assert_eq!(a.option_index, b.option_index);
        assert_eq!(a.rating, b.rating);
    }
}

#[test]
fn votes_are_complete_and_sorted() {
    let mut rng = Rng::new(Seed::Number(3));
    let stats = WorldStats::new();
    let mut election = open_election(ElectionType::Star);
    election.vote(&mut rng, 42, &sample_attributes(), &stats);
    let ratings = &election.votes[0].1;
    assert_eq!(ratings.len(), 5);
    let mut seen = [false; 5];
    for r in ratings.iter() {
        assert!(r.option_index < 5);
        assert!(!seen[r.option_index]);
        seen[r.option_index] = true;
    }
    for pair in ratings.windows(2) {
        assert!(
            pair[0].rating > pair[1].rating
                || (pair[0].rating == pair[1].rating
                    && pair[0].option_index < pair[1].option_index)
        );
    }
}

#[test]
fn election_stays_open_before_the_threshold() {
    let mut election = open_election(ElectionType::Approval);
    let outcome = election.tick(15000);
    assert!(matches!(outcome, CloseOutcome::StillOpen));
    assert_eq!(election.time_open_ms, 15000);
}

#[test]
fn empty_election_is_discarded_with_no_record() {
    let mut election = open_election(ElectionType::Approval);
    let outcome = election.tick(15001);
    assert!(matches!(outcome, CloseOutcome::Discarded));
}

#[test]
fn resolved_election_records_all_seven_methods() {
    let mut rng = Rng::new(Seed::Number(11));
    let stats = WorldStats::new();
    let mut election = open_election(ElectionType::Preferential);
    election.vote(&mut rng, 1, &sample_attributes(), &stats);
    election.vote(&mut rng, 2, &sample_attributes(), &stats);
    let outcome = election.tick(16000);
    match outcome {
        CloseOutcome::Resolved(held) => {
            assert_eq!(held.results.len(), 7);
            assert!(matches!(held.results[0].get_type(), ElectionType::Preferential));
            let mut seen = [false; 7];
            for result in held.results.iter() {
                let k = match result.get_type() {
                    ElectionType::FirstPastThePost => 0,
                    ElectionType::Approval => 1,
                    ElectionType::Preferential => 2,
                    ElectionType::GoodOkBad => 3,
                    ElectionType::Star => 4,
                    ElectionType::AntiPlurality => 5,
                    ElectionType::UsualJudgment => 6,
                };
                assert!(!seen[k]);
                seen[k] = true;
                assert!(result.get_winner_index() < 5);
            }
            assert_eq!(held.election.votes.len(), 2);
        },
        _ => panic!("expected a resolved election"),
    }
}

#[test]
fn held_election_keeps_primary_result_first() {
    let mut rng = Rng::new(Seed::Number(5));
    let stats = WorldStats::new();
    let mut election = open_election(ElectionType::Star);
    election.vote(&mut rng, 9, &sample_attributes(), &stats);
    let held = HeldElection::new("Election", election);
    assert_eq!(held.name, "Election");
    assert!(matches!(held.results[0].get_type(), ElectionType::Star));
}

#[test]
fn standard_ballot_paper_has_five_options() {
    let mut rng = Rng::new(Seed::Number(99));
    let foods = FoodCollection { foods: vec![sample_food()] };
    let options = get_options(&mut rng, &foods);
    assert_eq!(options.len(), 5);
    assert!(matches!(options[0], ElectionOption::DoNothing));
    match &options[1] {
        ElectionOption::House(d) => assert!(3 <= *d && *d <= 10),
        _ => panic!("expected a house option"),
    }
    match &options[2] {
        ElectionOption::MakeFarm(t) => assert_eq!(t.name, "Barley"),
        _ => panic!("expected a farm option"),
    }
    assert!(matches!(options[3], ElectionOption::MoneyHole));
    assert!(matches!(options[4], ElectionOption::Mint));
}

#[test]
fn create_election_starts_fresh() {
    let mut rng = Rng::new(Seed::Number(1));
    let foods = FoodCollection { foods: vec![sample_food()] };
    let election = create_election(&mut rng, ElectionType::GoodOkBad, &foods);
    assert_eq!(election.votes.len(), 0);
    assert_eq!(election.time_open_ms, 0);
    assert_eq!(election.options.len(), 5);
    assert!(matches!(election.election_type, ElectionType::GoodOkBad));
}

#[test]
fn all_lists_the_seven_methods() {
    let all = ElectionType::all();
    assert_eq!(all.len(), 7);
    assert!(matches!(all[0], ElectionType::FirstPastThePost));
    assert!(matches!(all[6], ElectionType::UsualJudgment));
}

#[test]
fn fixed_seed_reproduces_a_run() {
    let stats = WorldStats::new();
    let mut first: Vec<(usize, i32)> = Vec::new();
    for round in 0..2 {
        let mut rng = Rng::new(Seed::Number(123));
        let mut election = open_election(ElectionType::FirstPastThePost);
        election.vote(&mut rng, 1, &sample_attributes(), &stats);
        let current: Vec<(usize, i32)> = election.votes[0]
            .1
            .iter()
            .map(|r| (r.option_index, r.rating))
            .collect();
        if round == 0 {
            first = current;
        } else {
            assert_eq!(first, current);
        }
    }
}
