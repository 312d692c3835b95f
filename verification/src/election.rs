//! The election itself: the options on the ballot paper, the seven method
//! kinds, the lifecycle of one open election, and the historical record of a
//! closed one.

use vstd::prelude::*;
use crate::energy::Energy;
use crate::hunger::{shares_group, shares_group_exec, FoodCollection, FoodPreferences, FoodTemplate, FoodTemplateView, Stomach};
use crate::ratings::{complete_ratings, sorted_for_ballots, OptionRating};
use crate::reproduction::Reproductive;
use crate::rng::Rng;
use crate::shelter::RequiresHouse;
use crate::voter::Voter;
use crate::want_level;
use crate::world_stats::WorldStats;

verus! {

/// One candidate outcome an election can select.
#[derive(Debug)]
pub enum ElectionOption {
    DoNothing,
    MakeFarm(FoodTemplate),
    MakeRz,
    MoneyHole,
    Mint,
    House(i32),
}

/// An option's content as plain mathematical values.
pub enum OptionView {
    DoNothing,
    MakeFarm(FoodTemplateView),
    MakeRz,
    MoneyHole,
    Mint,
    House(int),
}

impl View for ElectionOption {
    type V = OptionView;

    open spec fn view(&self) -> OptionView {
        match self {
            ElectionOption::DoNothing => OptionView::DoNothing,
            ElectionOption::MakeFarm(t) => OptionView::MakeFarm(t@),
            ElectionOption::MakeRz => OptionView::MakeRz,
            ElectionOption::MoneyHole => OptionView::MoneyHole,
            ElectionOption::Mint => OptionView::Mint,
            ElectionOption::House(d) => OptionView::House(*d as int),
        }
    }
}

impl Clone for ElectionOption {
    fn clone(&self) -> (r: Self)
        ensures
            r@ == self@,
    {
        match self {
            ElectionOption::DoNothing => ElectionOption::DoNothing,
            ElectionOption::MakeFarm(t) => ElectionOption::MakeFarm(t.clone()),
            ElectionOption::MakeRz => ElectionOption::MakeRz,
            ElectionOption::MoneyHole => ElectionOption::MoneyHole,
            ElectionOption::Mint => ElectionOption::Mint,
            ElectionOption::House(d) => ElectionOption::House(*d),
        }
    }
}

/// Clone an option list, preserving every option's content.
pub fn clone_options(options: &Vec<ElectionOption>) -> (r: Vec<ElectionOption>)
    ensures
        r@.len() == options@.len(),
        forall|i: int| 0 <= i < r@.len() ==> (#[trigger] r@[i])@ == options@[i]@,
{
    let mut r: Vec<ElectionOption> = Vec::new();
    let mut i: usize = 0;
    while i < options.len()
        invariant
            i <= options@.len(),
            r@.len() == i,
            forall|t: int| 0 <= t < i ==> (#[trigger] r@[t])@ == options@[t]@,
        decreases options@.len() - i,
    {
        r.push(options[i].clone());
        i = i + 1;
    }
    r
}

/// One option's tally in a method's breakdown.
pub struct VoteCount {
    pub option: ElectionOption,
    pub option_index: usize,
    pub votes: i64,
}

/// The seven supported voting methods.
#[derive(Debug, Clone, Copy, PartialEq, Eq, Structural)]
pub enum ElectionType {
    FirstPastThePost,
    Approval,
    Preferential,
    GoodOkBad,
    Star,
    AntiPlurality,
    UsualJudgment,
}

impl ElectionType {
    /// All seven methods, in declaration order.
    pub fn all() -> (r: Vec<ElectionType>)
        ensures
            r@ == all_election_types(),
    {
        let mut r: Vec<ElectionType> = Vec::new();
        r.push(ElectionType::FirstPastThePost);
        r.push(ElectionType::Approval);
        r.push(ElectionType::Preferential);
        r.push(ElectionType::GoodOkBad);
        r.push(ElectionType::Star);
        r.push(ElectionType::AntiPlurality);
        r.push(ElectionType::UsualJudgment);
        proof {
            assert(r@ =~= all_election_types());
        }
        r
    }
}

pub open spec fn all_election_types() -> Seq<ElectionType> {
    seq![
        ElectionType::FirstPastThePost,
        ElectionType::Approval,
        ElectionType::Preferential,
        ElectionType::GoodOkBad,
        ElectionType::Star,
        ElectionType::AntiPlurality,
        ElectionType::UsualJudgment,
    ]
}

/// Everything the rating model may read about one voter.  Absent parts
/// contribute nothing to the ratings.
#[derive(Debug)]
pub struct VoterAttributes {
    pub voter: Voter,
    pub energy: Option<Energy>,
    pub stomach: Option<Stomach>,
    pub food_preferences: Option<FoodPreferences>,
    pub reproductive: Option<Reproductive>,
    pub housing: Option<RequiresHouse>,
}

/// The baseline desirability of one option for one voter, before the death
/// bonus, jitter and care modifier.
pub open spec fn baseline_rating(option: OptionView, attributes: VoterAttributes, stats: WorldStats) -> int {
    match option {
        OptionView::DoNothing => 0,
        OptionView::MakeFarm(ft) => {
            if attributes.food_preferences matches Some(fp) && shares_group(fp.wont_eat@, ft.groups) {
                want_level::EXTREMELY_NEGATIVE as int
            } else if attributes.food_preferences matches Some(fp) && shares_group(
                fp.prefers@,
                ft.groups,
            ) {
                want_level::SLIGHTLY_POSITIVE as int
            } else if attributes.energy matches Some(en) && en.below_percent(30) {
                want_level::POSITIVE as int
            } else {
                0
            }
        },
        OptionView::MakeRz => {
            if attributes.reproductive matches Some(rp) && rp.wants_reproduction {
                want_level::SLIGHTLY_POSITIVE as int
            } else {
                0
            }
        },
        OptionView::MoneyHole => {
            if stats.hole_filled_max_percent > 90 {
                want_level::SLIGHTLY_POSITIVE as int
            } else {
                0
            }
        },
        OptionView::Mint => {
            if stats.hole_filled_avg_percent < 30 {
                want_level::POSITIVE as int
            } else if stats.hole_filled_avg_percent < 50 {
                want_level::SLIGHTLY_POSITIVE as int
            } else {
                0
            }
        },
        OptionView::House(_) => {
            (if attributes.housing matches Some(h) && h.shelter is None {
                want_level::POSITIVE as int
            } else {
                0int
            }) + (if stats.houses_filled_max_percent > 90 {
                want_level::SLIGHTLY_POSITIVE as int
            } else {
                0int
            })
        },
    }
}

/// Integer ceiling division for a positive divisor.
pub open spec fn ceil_div(a: int, b: int) -> int {
    if a % b == 0 {
        a / b
    } else {
        a / b + 1
    }
}

/// The extra desire for options that would have prevented recent deaths:
/// `ceil(death_care * deaths_of_that_reason / (population + all deaths))`.
pub open spec fn death_bonus(option: OptionView, attributes: VoterAttributes, stats: WorldStats) -> int {
    let death_count: int = match option {
        OptionView::MakeFarm(_) => stats.starvation_deaths as int,
        OptionView::House(_) => stats.homelessness_deaths as int,
        _ => 0,
    };
    let total_pop = stats.population as int + stats.total_deaths as int;
    if death_count == 0 {
        0
    } else {
        ceil_div(attributes.voter.death_care as int * death_count, total_pop)
    }
}

/// Which care trait applies to an option.
pub open spec fn care_modifier(option: OptionView, v: Voter) -> int {
    match option {
        OptionView::DoNothing => 0,
        OptionView::MakeFarm(_) => v.food_care as int,
        OptionView::MakeRz => v.reproductive_care as int,
        OptionView::MoneyHole => v.money_care as int,
        OptionView::Mint => v.money_care as int,
        OptionView::House(_) => v.housing_care as int,
    }
}

/// One voter's final rating of one option: the baseline plus the death
/// bonus, a random jitter and the care modifier; doing nothing always rates
/// neutral.
pub open spec fn final_rating(
    option: OptionView,
    attributes: VoterAttributes,
    stats: WorldStats,
    jit: int,
) -> int {
    if option is DoNothing {
        0
    } else {
        baseline_rating(option, attributes, stats) + death_bonus(option, attributes, stats) + jit
            + care_modifier(option, attributes.voter)
    }
}

proof fn lemma_ceil_div_bounds(a: int, b: int, m: int)
    requires
        b > 0,
        m >= 0,
        -m * b <= a <= m * b,
    ensures
        -m <= ceil_div(a, b) <= m,
{
    vstd::arithmetic::div_mod::lemma_div_is_ordered(a, m * b, b);
    vstd::arithmetic::div_mod::lemma_div_is_ordered(-m * b, a, b);
    vstd::arithmetic::div_mod::lemma_div_multiples_vanish(m, b);
    vstd::arithmetic::div_mod::lemma_div_multiples_vanish(-m, b);
    assert(m * b == b * m) by (nonlinear_arith);
    assert((-m) * b == b * (-m)) by (nonlinear_arith);
    assert(-m * b == (-m) * b) by (nonlinear_arith);
    if a % b != 0 {
        if a / b >= m {
            vstd::arithmetic::div_mod::lemma_fundamental_div_mod(a, b);
            vstd::arithmetic::div_mod::lemma_mod_bound(a, b);
            assert(a == b * (a / b) + a % b);
            assert(b * (a / b) >= b * m) by (nonlinear_arith)
                requires b > 0 && a / b >= m;
            assert(false);
        }
    }
}

fn ceil_div_i64(a: i64, b: i64) -> (r: i64)
    requires
        b > 0,
        -0x4000_0000_0000_0000 <= a <= 0x4000_0000_0000_0000,
    ensures
        r as int == ceil_div(a as int, b as int),
{
    proof {
        vstd::arithmetic::div_mod::lemma_div_is_ordered(a as int, 0x4000_0000_0000_0000, b as int);
        vstd::arithmetic::div_mod::lemma_div_is_ordered(-0x4000_0000_0000_0000, a as int, b as int);
        vstd::arithmetic::div_mod::lemma_div_pos_is_pos(0x4000_0000_0000_0000, b as int);
        vstd::arithmetic::div_mod::lemma_mod_bound(a as int, b as int);
        assert(-0x4000_0000_0000_0000 / (b as int) >= -0x4000_0000_0000_0000) by {
            vstd::arithmetic::div_mod::lemma_fundamental_div_mod(-0x4000_0000_0000_0000, b as int);
            vstd::arithmetic::div_mod::lemma_mod_bound(-0x4000_0000_0000_0000, b as int);
            let q = -0x4000_0000_0000_0000 / (b as int);
            let m = -0x4000_0000_0000_0000 % (b as int);
            assert((b as int) * q == -0x4000_0000_0000_0000 - m);
            assert(q >= -0x4000_0000_0000_0000) by (nonlinear_arith)
                requires
                    (b as int) >= 1,
                    (b as int) * q == -0x4000_0000_0000_0000 - m,
                    0 <= m < (b as int);
        }
    }
    let q = a.checked_div_euclid(b).unwrap();
    let m = a.checked_rem_euclid(b).unwrap();
    if m == 0 {
        q
    } else {
        q + 1
    }
}

/// Compute one voter's final rating of one option.
fn compute_rating(
    option: &ElectionOption,
    attributes: &VoterAttributes,
    stats: &WorldStats,
    jit: i32,
) -> (r: i32)
    requires
        attributes.voter.valid(),
        stats.wf(),
        -10 <= jit < 10,
    ensures
        r as int == final_rating(option@, *attributes, *stats, jit as int),
        -100 <= r <= 100,
{
    if let ElectionOption::DoNothing = option {
        return 0;
    }
    let baseline: i32 = match option {
        ElectionOption::DoNothing => 0,
        ElectionOption::MakeFarm(ft) => {
            let mut rating: i32 = 0;
            let energy_low = match &attributes.energy {
                Some(en) => (en.current_kcal as u128) * 100 < (en.max_kcal as u128) * 30,
                None => false,
            };
            if energy_low {
                rating = want_level::POSITIVE;
            }
            match &attributes.food_preferences {
                Some(fp) => {
                    if shares_group_exec(&fp.prefers, &ft.groups) {
                        rating = want_level::SLIGHTLY_POSITIVE;
                    }
                    if shares_group_exec(&fp.wont_eat, &ft.groups) {
                        rating = want_level::EXTREMELY_NEGATIVE;
                    }
                },
                None => {},
            }
            rating
        },
        ElectionOption::MakeRz => {
            match &attributes.reproductive {
                Some(rp) => {
                    if rp.wants_to_reproduce() {
                        want_level::SLIGHTLY_POSITIVE
                    } else {
                        0
                    }
                },
                None => 0,
            }
        },
        ElectionOption::MoneyHole => {
            if stats.hole_filled_max_percent > 90 {
                want_level::SLIGHTLY_POSITIVE
            } else {
                0
            }
        },
        ElectionOption::Mint => {
            if stats.hole_filled_avg_percent < 30 {
                want_level::POSITIVE
            } else if stats.hole_filled_avg_percent < 50 {
                want_level::SLIGHTLY_POSITIVE
            } else {
                0
            }
        },
        ElectionOption::House(_) => {
            let mut rating: i32 = 0;
            match &attributes.housing {
                Some(h) => {
                    if h.shelter.is_none() {
                        rating = want_level::POSITIVE;
                    }
                },
                None => {},
            }
            if stats.houses_filled_max_percent > 90 {
                rating = rating + want_level::SLIGHTLY_POSITIVE;
            }
            rating
        },
    };
    let death_count: u32 = match option {
        ElectionOption::MakeFarm(_) => stats.starvation_deaths,
        ElectionOption::House(_) => stats.homelessness_deaths,
        _ => 0,
    };
    let bonus: i32 = if death_count == 0 {
        0
    } else {
        let total_pop: i64 = stats.population as i64 + stats.total_deaths as i64;
        let dc: i64 = attributes.voter.death_care as i64;
        let dcount: i64 = death_count as i64;
        proof {
            assert(-30 * 0x1_0000_0000i64 <= dc * dcount <= 30 * 0x1_0000_0000i64) by (nonlinear_arith)
                requires
                    -30 <= dc <= 30,
                    0 <= dcount <= 0xffff_ffff,
            ;
        }
        let a: i64 = dc * dcount;
        proof {
            assert(-30 * total_pop <= a <= 30 * total_pop) by (nonlinear_arith)
                requires
                    -30 <= dc <= 30,
                    0 < dcount <= total_pop,
                    a == dc * dcount,
            ;
            lemma_ceil_div_bounds(a as int, total_pop as int, 30);
        }
        ceil_div_i64(a, total_pop) as i32
    };
    baseline + bonus + jit + (match option {
        ElectionOption::DoNothing => 0,
        ElectionOption::MakeFarm(_) => attributes.voter.food_care,
        ElectionOption::MakeRz => attributes.voter.reproductive_care,
        ElectionOption::MoneyHole => attributes.voter.money_care,
        ElectionOption::Mint => attributes.voter.money_care,
        ElectionOption::House(_) => attributes.voter.housing_care,
    })
}

/// One jitter per option, each drawn from the slightly-negative to
/// slightly-positive band.
pub open spec fn jitter_ok(jit: Seq<i32>, n: int) -> bool {
    &&& jit.len() == n
    &&& forall|k: int|
        0 <= k < n ==> want_level::SLIGHTLY_NEGATIVE <= #[trigger] jit[k]
            < want_level::SLIGHTLY_POSITIVE
}

/// Every entry of the rating vector carries its option's final rating.
pub open spec fn rated_by(
    rs: Seq<OptionRating>,
    options: Seq<ElectionOption>,
    attributes: VoterAttributes,
    stats: WorldStats,
    jit: Seq<i32>,
) -> bool {
    forall|k: int|
        0 <= k < rs.len() ==> (#[trigger] rs[k]).rating as int == final_rating(
            options[rs[k].option_index as int]@,
            attributes,
            stats,
            jit[rs[k].option_index as int] as int,
        )
}

/// Produce one voter's complete rating vector: one entry per option, each
/// rated by the model above, sorted descending by rating with ties keeping
/// option order.
pub fn rate_options(
    options: &Vec<ElectionOption>,
    attributes: &VoterAttributes,
    stats: &WorldStats,
    jitters: &Vec<i32>,
) -> (r: Vec<OptionRating>)
    requires
        attributes.voter.valid(),
        stats.wf(),
        jitter_ok(jitters@, options@.len() as int),
    ensures
        complete_ratings(r@, options@.len() as int),
        sorted_for_ballots(r@),
        rated_by(r@, options@, *attributes, *stats, jitters@),
{
    let n = options.len();
    let mut out: Vec<OptionRating> = Vec::new();
    let mut j: usize = 0;
    while j < n
        invariant
            j <= n,
            n == options@.len(),
            attributes.voter.valid(),
            stats.wf(),
            jitter_ok(jitters@, n as int),
            out@.len() == j,
            forall|k: int| 0 <= k < j ==> (#[trigger] out@[k]).option_index < j,
            forall|k1: int, k2: int|
                0 <= k1 < k2 < j ==> (#[trigger] out@[k1]).option_index != (
                #[trigger] out@[k2]).option_index,
            forall|idx: int| 0 <= idx < j ==> #[trigger] crate::ratings::has_index(out@, idx),
            sorted_for_ballots(out@),
            rated_by(out@, options@, *attributes, *stats, jitters@),
        decreases n - j,
    {
        let rating = compute_rating(&options[j], attributes, stats, jitters[j]);
        let e = OptionRating { option_index: j, rating };
        let mut p: usize = 0;
        while p < out.len() && out[p].rating >= rating
            invariant
                p <= out@.len(),
                forall|q: int| 0 <= q < p ==> (#[trigger] out@[q]).rating >= rating,
            decreases out@.len() - p,
        {
            p = p + 1;
        }
        let ghost pre = out@;
        proof {
            pre.insert_ensures(p as int, e);
        }
        out.insert(p, e);
        proof {
            assert forall|idx: int| 0 <= idx < j + 1 implies #[trigger] crate::ratings::has_index(
                out@,
                idx,
            ) by {
                if idx < j {
                    assert(crate::ratings::has_index(pre, idx));
                    let k = choose|k: int|
                        0 <= k < pre.len() && (#[trigger] pre[k]).option_index == idx;
                    if k < p {
                        assert(out@[k].option_index == idx);
                    } else {
                        assert(out@[k + 1].option_index == idx);
                    }
                } else {
                    assert(out@[p as int].option_index == idx);
                }
            }
            assert forall|k1: int, k2: int| 0 <= k1 < k2 < out@.len() implies
                crate::ratings::rating_precedes(#[trigger] out@[k1], #[trigger] out@[k2]) by {
                if k2 < p {
                    assert(out@[k1] == pre[k1] && out@[k2] == pre[k2]);
                } else if k1 == p {
                    assert(out@[k1] == e && out@[k2] == pre[k2 - 1]);
                    assert(p < pre.len() && pre[p as int].rating < rating);
                    if p < k2 - 1 {
                        assert(crate::ratings::rating_precedes(pre[p as int], pre[k2 - 1]));
                    }
                } else if k2 == p {
                    assert(out@[k1] == pre[k1] && out@[k2] == e);
                    assert(pre[k1].rating >= rating);
                    assert(pre[k1].option_index < j);
                } else if k1 < p {
                    assert(out@[k1] == pre[k1] && out@[k2] == pre[k2 - 1]);
                    assert(k1 < k2 - 1);
                    assert(crate::ratings::rating_precedes(pre[k1], pre[k2 - 1]));
                } else {
                    assert(out@[k1] == pre[k1 - 1] && out@[k2] == pre[k2 - 1]);
                    assert(crate::ratings::rating_precedes(pre[k1 - 1], pre[k2 - 1]));
                }
            }
        }
        j = j + 1;
    }
    out
}

/// One in-progress voting round: the fixed option list, the method that
/// will decide it, every voter's rating vector, and how long it has been
/// open (simulated milliseconds).
pub struct Election {
    pub options: Vec<ElectionOption>,
    pub election_type: ElectionType,
    pub votes: Vec<(u64, Vec<OptionRating>)>,
    pub time_open_ms: u64,
}

/// How long an election stays open, in simulated milliseconds.
pub const ELECTION_OPEN_MS: u64 = 15000;

impl Election {
    /// Enough options for every method, no voter listed twice, and every
    /// stored rating vector complete and sorted.
    pub open spec fn wf(self) -> bool {
        &&& self.options@.len() >= 3
        &&& self.votes@.len() <= 0x1000_0000
        &&& forall|i: int, j: int|
            0 <= i < j < self.votes@.len() ==> (#[trigger] self.votes@[i]).0 != (
            #[trigger] self.votes@[j]).0
        &&& forall|i: int|
            0 <= i < self.votes@.len() ==> complete_ratings(
                (#[trigger] self.votes@[i]).1@,
                self.options@.len() as int,
            ) && sorted_for_ballots(self.votes@[i].1@)
    }

    pub open spec fn has_voted(self, voter: u64) -> bool {
        exists|i: int| 0 <= i < self.votes@.len() && (#[trigger] self.votes@[i]).0 == voter
    }

    /// The rating vectors of everyone who voted, in voting order.
    pub open spec fn ratings_of(self) -> Seq<Seq<OptionRating>> {
        Seq::new(self.votes@.len(), |i: int| self.votes@[i].1@)
    }

    pub fn new(options: Vec<ElectionOption>, election_type: ElectionType) -> (e: Election)
        requires
            options@.len() >= 3,
        ensures
            e.wf(),
            e.options == options,
            e.election_type == election_type,
            e.votes@.len() == 0,
            e.time_open_ms == 0,
    {
        Election { options, election_type, votes: Vec::new(), time_open_ms: 0 }
    }

    /// Record one voter's ballot.  A voter who already voted is a no-op, so
    /// voting twice leaves the vote map exactly as after the first vote.
    pub fn vote(
        &mut self,
        rng: &mut Rng,
        voter: u64,
        attributes: &VoterAttributes,
        stats: &WorldStats,
    )
        requires
            old(self).wf(),
            old(self).votes@.len() < 0x1000_0000,
            attributes.voter.valid(),
            stats.wf(),
        ensures
            final(self).wf(),
            final(self).options == old(self).options,
            final(self).election_type == old(self).election_type,
            final(self).time_open_ms == old(self).time_open_ms,
            final(self).has_voted(voter),
            old(self).has_voted(voter) ==> final(self).votes == old(self).votes,
            !old(self).has_voted(voter) ==> {
                &&& final(self).votes@.len() == old(self).votes@.len() + 1
                &&& forall|i: int|
                    0 <= i < old(self).votes@.len() ==> final(self).votes@[i] == old(
                        self,
                    ).votes@[i]
                &&& final(self).votes@.last().0 == voter
                &&& exists|jit: Seq<i32>|
                    jitter_ok(jit, old(self).options@.len() as int) && rated_by(
                        final(self).votes@.last().1@,
                        old(self).options@,
                        *attributes,
                        *stats,
                        jit,
                    )
            },
    {
        let mut i: usize = 0;
        while i < self.votes.len()
            invariant
                i <= self.votes@.len(),
                *self == *old(self),
                old(self).wf(),
                forall|t: int| 0 <= t < i ==> (#[trigger] self.votes@[t]).0 != voter,
            decreases self.votes@.len() - i,
        {
            if self.votes[i].0 == voter {
                proof {
                    assert(self.votes@[i as int].0 == voter);
                }
                return ;
            }
            i = i + 1;
        }
        let n = self.options.len();
        let mut jitters: Vec<i32> = Vec::new();
        let mut j: usize = 0;
        while j < n
            invariant
                j <= n,
                n == self.options@.len(),
                *self == *old(self),
                old(self).wf(),
                forall|t: int| 0 <= t < self.votes@.len() ==> (#[trigger] self.votes@[t]).0 != voter,
                jitters@.len() == j,
                forall|k: int|
                    0 <= k < j ==> want_level::SLIGHTLY_NEGATIVE <= #[trigger] jitters@[k]
                        < want_level::SLIGHTLY_POSITIVE,
            decreases n - j,
        {
            let draw = match &self.options[j] {
                ElectionOption::DoNothing => 0,
                _ => rng.gen_range_i32(
                    want_level::SLIGHTLY_NEGATIVE,
                    want_level::SLIGHTLY_POSITIVE,
                ),
            };
            jitters.push(draw);
            j = j + 1;
        }
        let ratings = rate_options(&self.options, attributes, stats, &jitters);
        self.votes.push((voter, ratings));
        proof {
            assert(self.votes@[self.votes@.len() - 1].0 == voter);
            assert(self.votes@.last().1@ == ratings@);
            assert(jitter_ok(jitters@, old(self).options@.len() as int) && rated_by(
                self.votes@.last().1@,
                old(self).options@,
                *attributes,
                *stats,
                jitters@,
            ));
        }
    }

    /// A copy of every stored rating vector, in voting order.
    pub fn get_option_ratings(&self) -> (r: Vec<Vec<OptionRating>>)
        ensures
            crate::tallies::ratings_view(r@) == self.ratings_of(),
    {
        let mut r: Vec<Vec<OptionRating>> = Vec::new();
        let mut i: usize = 0;
        while i < self.votes.len()
            invariant
                i <= self.votes@.len(),
                r@.len() == i,
                forall|t: int| 0 <= t < i ==> (#[trigger] r@[t])@ == self.votes@[t].1@,
            decreases self.votes@.len() - i,
        {
            r.push(crate::ballots::copy_vec(&self.votes[i].1));
            i = i + 1;
        }
        proof {
            assert(crate::tallies::ratings_view(r@) =~= self.ratings_of());
        }
        r
    }

    /// Tally this election under the given method.
    pub fn result_for(&self, election_type: ElectionType) -> (r: ElectionTypeResult)
        requires
            self.wf(),
            self.votes@.len() >= 1,
        ensures
            r.kind() == election_type,
            result_valid_for(r, self.options@, self.ratings_of()),
    {
        let option_ratings = self.get_option_ratings();
        proof {
            assert(crate::tallies::ratings_view(option_ratings@).len() == self.ratings_of().len());
            assert(option_ratings@.len() == self.votes@.len());
            assert forall|i: int| 0 <= i < self.votes@.len() implies complete_ratings(
                #[trigger] crate::tallies::ratings_view(option_ratings@)[i],
                self.options@.len() as int,
            ) by {
                assert(crate::tallies::ratings_view(option_ratings@)[i] == self.ratings_of()[i]);
                assert(self.ratings_of()[i] == self.votes@[i].1@);
            }
        }
        election_type.result(&self.options, &option_ratings)
    }

    /// Tally this election under its own method.
    pub fn result(&self) -> (r: ElectionTypeResult)
        requires
            self.wf(),
            self.votes@.len() >= 1,
        ensures
            r.kind() == self.election_type,
            result_valid_for(r, self.options@, self.ratings_of()),
    {
        self.result_for(self.election_type)
    }

    /// A copy of this election with the same option contents, voters and
    /// ratings.
    pub fn duplicate(&self) -> (r: Election)
        requires
            self.wf(),
        ensures
            r.wf(),
            r.options@.len() == self.options@.len(),
            forall|i: int| 0 <= i < r.options@.len() ==> (#[trigger] r.options@[i])@ == self.options@[i]@,
            r.election_type == self.election_type,
            r.time_open_ms == self.time_open_ms,
            r.votes@.len() == self.votes@.len(),
            forall|i: int| 0 <= i < r.votes@.len() ==> (#[trigger] r.votes@[i]).0 == self.votes@[i].0,
            r.ratings_of() == self.ratings_of(),
    {
        let options = clone_options(&self.options);
        let mut votes: Vec<(u64, Vec<OptionRating>)> = Vec::new();
        let mut i: usize = 0;
        while i < self.votes.len()
            invariant
                i <= self.votes@.len(),
                votes@.len() == i,
                forall|t: int|
                    0 <= t < i ==> (#[trigger] votes@[t]).0 == self.votes@[t].0 && votes@[t].1@
                        == self.votes@[t].1@,
            decreases self.votes@.len() - i,
        {
            votes.push((self.votes[i].0, crate::ballots::copy_vec(&self.votes[i].1)));
            i = i + 1;
        }
        let r = Election {
            options,
            election_type: self.election_type,
            votes,
            time_open_ms: self.time_open_ms,
        };
        proof {
            assert(r.ratings_of() =~= self.ratings_of());
            assert forall|i2: int| 0 <= i2 < r.votes@.len() implies complete_ratings(
                (#[trigger] r.votes@[i2]).1@,
                r.options@.len() as int,
            ) && sorted_for_ballots(r.votes@[i2].1@) by {
                assert(r.votes@[i2].1@ == self.votes@[i2].1@);
            }
        }
        r
    }

    /// Advance the election's clock.  Nothing happens until the open period
    /// elapses; then an election nobody voted in is discarded with no
    /// record and no effect, and any other election resolves into a full
    /// historical record.
    pub fn tick(&mut self, delta_ms: u64) -> (outcome: CloseOutcome)
        requires
            old(self).wf(),
        ensures
            final(self).wf(),
            final(self).options == old(self).options,
            final(self).election_type == old(self).election_type,
            final(self).votes == old(self).votes,
            final(self).time_open_ms as int == if old(self).time_open_ms + delta_ms
                <= u64::MAX as int {
                old(self).time_open_ms + delta_ms
            } else {
                u64::MAX as int
            },
            (outcome is StillOpen) == (final(self).time_open_ms <= ELECTION_OPEN_MS),
            (outcome is Discarded) == (final(self).time_open_ms > ELECTION_OPEN_MS && old(
                self,
            ).votes@.len() == 0),
            (outcome is Resolved) == (final(self).time_open_ms > ELECTION_OPEN_MS && old(
                self,
            ).votes@.len() > 0),
            outcome matches CloseOutcome::Resolved(h) ==> held_election_valid(h, *final(self)),
    {
        if delta_ms > u64::MAX - self.time_open_ms {
            self.time_open_ms = u64::MAX;
        } else {
            self.time_open_ms = self.time_open_ms + delta_ms;
        }
        if self.time_open_ms <= ELECTION_OPEN_MS {
            return CloseOutcome::StillOpen;
        }
        if self.votes.len() == 0 {
            return CloseOutcome::Discarded;
        }
        let held = HeldElection::new("Election", self.duplicate());
        CloseOutcome::Resolved(held)
    }
}

/// What one call of `tick` can end in.
pub enum CloseOutcome {
    StillOpen,
    Discarded,
    Resolved(HeldElection),
}

/// The record of a closed election matches the live election it was built
/// from: same options, voters and ratings, and one valid result per method
/// with the election's own method first.
pub open spec fn held_election_valid(h: HeldElection, e: Election) -> bool {
    &&& h.election.options@.len() == e.options@.len()
    &&& forall|i: int|
        0 <= i < e.options@.len() ==> (#[trigger] h.election.options@[i])@ == e.options@[i]@
    &&& h.election.election_type == e.election_type
    &&& h.election.ratings_of() == e.ratings_of()
    &&& held_results_valid(h.results@, h.election)
}

/// One result per method, the election's own method first, every result
/// valid for the election's options and ratings.
pub open spec fn held_results_valid(results: Seq<ElectionTypeResult>, e: Election) -> bool {
    &&& results.len() == 7
    &&& results[0].kind() == e.election_type
    &&& forall|k1: int, k2: int|
        0 <= k1 < k2 < results.len() ==> (#[trigger] results[k1]).kind() != (
        #[trigger] results[k2]).kind()
    &&& forall|t: int|
        0 <= t < 7 ==> exists|k: int|
            0 <= k < results.len() && (#[trigger] results[k]).kind() == #[trigger] all_election_types()[t]
    &&& forall|k: int|
        0 <= k < results.len() ==> result_valid_for(#[trigger] results[k], e.options@, e.ratings_of())
}

/// An immutable record of one closed election: the election as it stood,
/// its primary result, and every other method's result for comparison.
pub struct HeldElection {
    pub name: String,
    pub election: Election,
    pub results: Vec<ElectionTypeResult>,
}

impl HeldElection {
    #[verifier::rlimit(100)]
    pub fn new(title: &str, election: Election) -> (h: HeldElection)
        requires
            election.wf(),
            election.votes@.len() >= 1,
        ensures
            h.name@ == title@,
            h.election == election,
            held_results_valid(h.results@, election),
    {
        let primary = election.election_type;
        let mut results: Vec<ElectionTypeResult> = Vec::new();
        match primary {
            ElectionType::FirstPastThePost => {
                results.push(election.result());
                results.push(election.result_for(ElectionType::Approval));
                results.push(election.result_for(ElectionType::Preferential));
                results.push(election.result_for(ElectionType::GoodOkBad));
                results.push(election.result_for(ElectionType::Star));
                results.push(election.result_for(ElectionType::AntiPlurality));
                results.push(election.result_for(ElectionType::UsualJudgment));
                proof {
                    assert(results@.len() == 7);
                    assert(results@[0].kind() == ElectionType::FirstPastThePost);
                    assert(results@[1].kind() == ElectionType::Approval);
                    assert(results@[2].kind() == ElectionType::Preferential);
                    assert(results@[3].kind() == ElectionType::GoodOkBad);
                    assert(results@[4].kind() == ElectionType::Star);
                    assert(results@[5].kind() == ElectionType::AntiPlurality);
                    assert(results@[6].kind() == ElectionType::UsualJudgment);
                    assert(held_results_valid(results@, election));
                }
            },
            ElectionType::Approval => {
                results.push(election.result());
                results.push(election.result_for(ElectionType::FirstPastThePost));
                results.push(election.result_for(ElectionType::Preferential));
                results.push(election.result_for(ElectionType::GoodOkBad));
                results.push(election.result_for(ElectionType::Star));
                results.push(election.result_for(ElectionType::AntiPlurality));
                results.push(election.result_for(ElectionType::UsualJudgment));
                proof {
                    assert(results@.len() == 7);
                    assert(results@[0].kind() == ElectionType::Approval);
                    assert(results@[1].kind() == ElectionType::FirstPastThePost);
                    assert(results@[2].kind() == ElectionType::Preferential);
                    assert(results@[3].kind() == ElectionType::GoodOkBad);
                    assert(results@[4].kind() == ElectionType::Star);
                    assert(results@[5].kind() == ElectionType::AntiPlurality);
                    assert(results@[6].kind() == ElectionType::UsualJudgment);
                    assert(held_results_valid(results@, election));
                }
            },
            ElectionType::Preferential => {
                results.push(election.result());
                results.push(election.result_for(ElectionType::FirstPastThePost));
                results.push(election.result_for(ElectionType::Approval));
                results.push(election.result_for(ElectionType::GoodOkBad));
                results.push(election.result_for(ElectionType::Star));
                results.push(election.result_for(ElectionType::AntiPlurality));
                results.push(election.result_for(ElectionType::UsualJudgment));
                proof {
                    assert(results@.len() == 7);
                    assert(results@[0].kind() == ElectionType::Preferential);
                    assert(results@[1].kind() == ElectionType::FirstPastThePost);
                    assert(results@[2].kind() == ElectionType::Approval);
                    assert(results@[3].kind() == ElectionType::GoodOkBad);
                    assert(results@[4].kind() == ElectionType::Star);
                    assert(results@[5].kind() == ElectionType::AntiPlurality);
                    assert(results@[6].kind() == ElectionType::UsualJudgment);
                    assert(held_results_valid(results@, election));
                }
            },
            ElectionType::GoodOkBad => {
                results.push(election.result());
                results.push(election.result_for(ElectionType::FirstPastThePost));
                results.push(election.result_for(ElectionType::Approval));
                results.push(election.result_for(ElectionType::Preferential));
                results.push(election.result_for(ElectionType::Star));
                results.push(election.result_for(ElectionType::AntiPlurality));
                results.push(election.result_for(ElectionType::UsualJudgment));
                proof {
                    assert(results@.len() == 7);
                    assert(results@[0].kind() == ElectionType::GoodOkBad);
                    assert(results@[1].kind() == ElectionType::FirstPastThePost);
                    assert(results@[2].kind() == ElectionType::Approval);
                    assert(results@[3].kind() == ElectionType::Preferential);
                    assert(results@[4].kind() == ElectionType::Star);
                    assert(results@[5].kind() == ElectionType::AntiPlurality);
                    assert(results@[6].kind() == ElectionType::UsualJudgment);
                    assert(held_results_valid(results@, election));
                }
            },
            ElectionType::Star => {
                results.push(election.result());
                results.push(election.result_for(ElectionType::FirstPastThePost));
                results.push(election.result_for(ElectionType::Approval));
                results.push(election.result_for(ElectionType::Preferential));
                results.push(election.result_for(ElectionType::GoodOkBad));
                results.push(election.result_for(ElectionType::AntiPlurality));
                results.push(election.result_for(ElectionType::UsualJudgment));
                proof {
                    assert(results@.len() == 7);
                    assert(results@[0].kind() == ElectionType::Star);
                    assert(results@[1].kind() == ElectionType::FirstPastThePost);
                    assert(results@[2].kind() == ElectionType::Approval);
                    assert(results@[3].kind() == ElectionType::Preferential);
                    assert(results@[4].kind() == ElectionType::GoodOkBad);
                    assert(results@[5].kind() == ElectionType::AntiPlurality);
                    assert(results@[6].kind() == ElectionType::UsualJudgment);
                    assert(held_results_valid(results@, election));
                }
            },
            ElectionType::AntiPlurality => {
                results.push(election.result());
                results.push(election.result_for(ElectionType::FirstPastThePost));
                results.push(election.result_for(ElectionType::Approval));
                results.push(election.result_for(ElectionType::Preferential));
                results.push(election.result_for(ElectionType::GoodOkBad));
                results.push(election.result_for(ElectionType::Star));
                results.push(election.result_for(ElectionType::UsualJudgment));
                proof {
                    assert(results@.len() == 7);
                    assert(results@[0].kind() == ElectionType::AntiPlurality);
                    assert(results@[1].kind() == ElectionType::FirstPastThePost);
                    assert(results@[2].kind() == ElectionType::Approval);
                    assert(results@[3].kind() == ElectionType::Preferential);
                    assert(results@[4].kind() == ElectionType::GoodOkBad);
                    assert(results@[5].kind() == ElectionType::Star);
                    assert(results@[6].kind() == ElectionType::UsualJudgment);
                    assert(held_results_valid(results@, election));
                }
            },
            ElectionType::UsualJudgment => {
                results.push(election.result());
                results.push(election.result_for(ElectionType::FirstPastThePost));
                results.push(election.result_for(ElectionType::Approval));
                results.push(election.result_for(ElectionType::Preferential));
                results.push(election.result_for(ElectionType::GoodOkBad));
                results.push(election.result_for(ElectionType::Star));
                results.push(election.result_for(ElectionType::AntiPlurality));
                proof {
                    assert(results@.len() == 7);
                    assert(results@[0].kind() == ElectionType::UsualJudgment);
                    assert(results@[1].kind() == ElectionType::FirstPastThePost);
                    assert(results@[2].kind() == ElectionType::Approval);
                    assert(results@[3].kind() == ElectionType::Preferential);
                    assert(results@[4].kind() == ElectionType::GoodOkBad);
                    assert(results@[5].kind() == ElectionType::Star);
                    assert(results@[6].kind() == ElectionType::AntiPlurality);
                    assert(held_results_valid(results@, election));
                }
            },
        }
        HeldElection { name: title.to_owned(), election, results }
    }
}

impl ElectionType {
    /// Whether two method kinds are the same.
    pub fn same_as(&self, other: ElectionType) -> (r: bool)
        ensures
            r == (*self == other),
    {
        match (self, other) {
            (ElectionType::FirstPastThePost, ElectionType::FirstPastThePost) => true,
            (ElectionType::Approval, ElectionType::Approval) => true,
            (ElectionType::Preferential, ElectionType::Preferential) => true,
            (ElectionType::GoodOkBad, ElectionType::GoodOkBad) => true,
            (ElectionType::Star, ElectionType::Star) => true,
            (ElectionType::AntiPlurality, ElectionType::AntiPlurality) => true,
            (ElectionType::UsualJudgment, ElectionType::UsualJudgment) => true,
            _ => false,
        }
    }

    /// Tally the given ballots under this method.
    pub fn result(&self, options: &Vec<ElectionOption>, option_ratings: &Vec<Vec<OptionRating>>)
        -> (r: ElectionTypeResult)
        requires
            options@.len() >= 3,
            1 <= option_ratings@.len() <= 0x1000_0000,
            crate::tallies::all_complete(
                crate::tallies::ratings_view(option_ratings@),
                options@.len() as int,
            ),
        ensures
            r.kind() == *self,
            result_valid_for(r, options@, crate::tallies::ratings_view(option_ratings@)),
    {
        proof {
            reveal(result_valid_for);
        }
        match self {
            ElectionType::FirstPastThePost => ElectionTypeResult::FirstPastThePostResult(
                crate::first_pass_the_post::FirstPastThePost::result(options, option_ratings),
            ),
            ElectionType::Approval => ElectionTypeResult::ApprovalResult(
                crate::approval::Approval::result(options, option_ratings),
            ),
            ElectionType::Preferential => ElectionTypeResult::PreferentialResult(
                crate::preferential::Preferential::result(options, option_ratings),
            ),
            ElectionType::GoodOkBad => ElectionTypeResult::GoodOkBadResult(
                crate::good_ok_bad::GoodOkBadElection::result(options, option_ratings),
            ),
            ElectionType::Star => ElectionTypeResult::StarResult(
                crate::star::Star::result(options, option_ratings),
            ),
            ElectionType::AntiPlurality => ElectionTypeResult::AntiPluralityResult(
                crate::anti_plurality::result(options, option_ratings),
            ),
            ElectionType::UsualJudgment => ElectionTypeResult::UsualJudgment(
                crate::usual_judgment::result(options, option_ratings),
            ),
        }
    }
}

/// One method's full outcome.
pub enum ElectionTypeResult {
    FirstPastThePostResult(crate::first_pass_the_post::FirstPastThePostResult),
    ApprovalResult(crate::approval::ApprovalResult),
    PreferentialResult(crate::preferential::PreferentialResult),
    GoodOkBadResult(crate::good_ok_bad::GoodOkBadResult),
    StarResult(crate::star::StarResult),
    AntiPluralityResult(crate::anti_plurality::AntiPluralityResult),
    UsualJudgment(crate::usual_judgment::UsualJudgmentResult),
}

impl ElectionTypeResult {
    /// Which method produced this result.
    pub open spec fn kind(self) -> ElectionType {
        match self {
            ElectionTypeResult::FirstPastThePostResult(_) => ElectionType::FirstPastThePost,
            ElectionTypeResult::ApprovalResult(_) => ElectionType::Approval,
            ElectionTypeResult::PreferentialResult(_) => ElectionType::Preferential,
            ElectionTypeResult::GoodOkBadResult(_) => ElectionType::GoodOkBad,
            ElectionTypeResult::StarResult(_) => ElectionType::Star,
            ElectionTypeResult::AntiPluralityResult(_) => ElectionType::AntiPlurality,
            ElectionTypeResult::UsualJudgment(_) => ElectionType::UsualJudgment,
        }
    }

    /// The winning option's content.
    pub open spec fn winner_view(self) -> OptionView {
        match self {
            ElectionTypeResult::FirstPastThePostResult(r) => r.winner@,
            ElectionTypeResult::ApprovalResult(r) => r.winner@,
            ElectionTypeResult::PreferentialResult(r) => r.winner@,
            ElectionTypeResult::GoodOkBadResult(r) => r.winner@,
            ElectionTypeResult::StarResult(r) => r.winner@,
            ElectionTypeResult::AntiPluralityResult(r) => r.winner@,
            ElectionTypeResult::UsualJudgment(r) => r.winner@,
        }
    }

    /// The winning option's index into the option list.
    pub open spec fn winner_index_spec(self) -> int {
        match self {
            ElectionTypeResult::FirstPastThePostResult(r) => r.winner_index as int,
            ElectionTypeResult::ApprovalResult(r) => r.winner_index as int,
            ElectionTypeResult::PreferentialResult(r) => r.winner_index as int,
            ElectionTypeResult::GoodOkBadResult(r) => r.winner_index as int,
            ElectionTypeResult::StarResult(r) => r.winner_index as int,
            ElectionTypeResult::AntiPluralityResult(r) => r.winner_index as int,
            ElectionTypeResult::UsualJudgment(r) => r.winner_index as int,
        }
    }

    pub fn get_winner(&self) -> (w: &ElectionOption)
        ensures
            w@ == self.winner_view(),
    {
        match self {
            ElectionTypeResult::FirstPastThePostResult(r) => &r.winner,
            ElectionTypeResult::ApprovalResult(r) => &r.winner,
            ElectionTypeResult::PreferentialResult(r) => &r.winner,
            ElectionTypeResult::GoodOkBadResult(r) => &r.winner,
            ElectionTypeResult::StarResult(r) => &r.winner,
            ElectionTypeResult::AntiPluralityResult(r) => &r.winner,
            ElectionTypeResult::UsualJudgment(r) => &r.winner,
        }
    }

    pub fn get_winner_index(&self) -> (w: usize)
        ensures
            w as int == self.winner_index_spec(),
    {
        match self {
            ElectionTypeResult::FirstPastThePostResult(r) => r.winner_index,
            ElectionTypeResult::ApprovalResult(r) => r.winner_index,
            ElectionTypeResult::PreferentialResult(r) => r.winner_index,
            ElectionTypeResult::GoodOkBadResult(r) => r.winner_index,
            ElectionTypeResult::StarResult(r) => r.winner_index,
            ElectionTypeResult::AntiPluralityResult(r) => r.winner_index,
            ElectionTypeResult::UsualJudgment(r) => r.winner_index,
        }
    }

    pub fn get_type(&self) -> (t: ElectionType)
        ensures
            t == self.kind(),
    {
        match self {
            ElectionTypeResult::FirstPastThePostResult(_) => ElectionType::FirstPastThePost,
            ElectionTypeResult::ApprovalResult(_) => ElectionType::Approval,
            ElectionTypeResult::PreferentialResult(_) => ElectionType::Preferential,
            ElectionTypeResult::GoodOkBadResult(_) => ElectionType::GoodOkBad,
            ElectionTypeResult::StarResult(_) => ElectionType::Star,
            ElectionTypeResult::AntiPluralityResult(_) => ElectionType::AntiPlurality,
            ElectionTypeResult::UsualJudgment(_) => ElectionType::UsualJudgment,
        }
    }
}

/// The wrapped result is a valid outcome of its method for these options
/// and rating vectors.  Opaque: reveal it to reach the per-method
/// predicates.
#[verifier::opaque]
pub open spec fn result_valid_for(
    r: ElectionTypeResult,
    options: Seq<ElectionOption>,
    rat: Seq<Seq<OptionRating>>,
) -> bool {
    match r {
        ElectionTypeResult::FirstPastThePostResult(r) => crate::first_pass_the_post::fptp_valid(
            r,
            options,
            rat,
        ),
        ElectionTypeResult::ApprovalResult(r) => crate::approval::approval_valid(r, options, rat),
        ElectionTypeResult::PreferentialResult(r) => crate::preferential::preferential_valid(
            r,
            options,
            rat,
        ),
        ElectionTypeResult::GoodOkBadResult(r) => crate::good_ok_bad::gob_valid(r, options, rat),
        ElectionTypeResult::StarResult(r) => crate::star::star_valid(r, options, rat),
        ElectionTypeResult::AntiPluralityResult(r) => crate::anti_plurality::anti_plurality_valid(
            r,
            options,
            rat,
        ),
        ElectionTypeResult::UsualJudgment(r) => crate::usual_judgment::uj_valid(r, options, rat),
    }
}

/// The record of every election held so far.
pub struct ElectionHistory {
    pub held_elections: Vec<HeldElection>,
}

impl Default for ElectionHistory {
    fn default() -> (r: Self)
        ensures
            r.held_elections@.len() == 0,
    {
        ElectionHistory { held_elections: Vec::new() }
    }
}

/// The notification emitted when an election closes.
pub struct ElectionClosedEvent {
    pub held_election: HeldElection,
}

/// The ballot paper every election opens with: doing nothing, a house of a
/// random size, a farm for a random food, a money hole and a mint.
pub fn get_options(rng: &mut Rng, food_collection: &FoodCollection) -> (r: Vec<ElectionOption>)
    requires
        food_collection.foods@.len() >= 1,
    ensures
        r@.len() == 5,
        r@[0]@ is DoNothing,
        r@[1]@ matches OptionView::House(d) && 3 <= d <= 10,
        r@[2]@ matches OptionView::MakeFarm(t) && (exists|i: int|
            0 <= i < food_collection.foods@.len() && t == (#[trigger] food_collection.foods@[i])@),
        r@[3]@ is MoneyHole,
        r@[4]@ is Mint,
{
    let mut result: Vec<ElectionOption> = Vec::new();
    let dwellings_count = rng.gen_range_i32(3, 11);
    let food_index = rng.gen_range_usize(0, food_collection.foods.len());
    result.push(ElectionOption::DoNothing);
    result.push(ElectionOption::House(dwellings_count));
    result.push(ElectionOption::MakeFarm(food_collection.foods[food_index].clone()));
    result.push(ElectionOption::MoneyHole);
    result.push(ElectionOption::Mint);
    proof {
        let fi = food_index as int;
        assert(result@[2]@ matches OptionView::MakeFarm(t) && t == food_collection.foods@[fi]@);
    }
    result
}

/// Open a fresh election over the standard ballot paper.
pub fn create_election(
    rng: &mut Rng,
    election_type: ElectionType,
    food_collection: &FoodCollection,
) -> (e: Election)
    requires
        food_collection.foods@.len() >= 1,
    ensures
        e.wf(),
        e.election_type == election_type,
        e.votes@.len() == 0,
        e.time_open_ms == 0,
        e.options@.len() == 5,
        e.options@[0]@ is DoNothing,
{
    let options = get_options(rng, food_collection);
    Election::new(options, election_type)
}

} // verus!
