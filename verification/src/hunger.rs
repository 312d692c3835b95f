//! Food data: food groups, food templates that farms can grow, and a
//! voter's food preferences.  Quantities are integer kilocalories and
//! millilitres.

use vstd::prelude::*;

verus! {

#[derive(Debug, Copy, Clone, PartialEq, Eq, Hash, Structural)]
pub enum FoodGroup {
    Fruit,
    Vegetable,
    Grain,
    Meat,
    Dairy,
    Fat,
    Sugar,
}

impl FoodGroup {
    /// All seven groups, in declaration order.
    pub fn all() -> (r: Vec<FoodGroup>)
        ensures
            r@ == seq![
                FoodGroup::Fruit,
                FoodGroup::Vegetable,
                FoodGroup::Grain,
                FoodGroup::Meat,
                FoodGroup::Dairy,
                FoodGroup::Fat,
                FoodGroup::Sugar,
            ],
    {
        let mut r: Vec<FoodGroup> = Vec::new();
        r.push(FoodGroup::Fruit);
        r.push(FoodGroup::Vegetable);
        r.push(FoodGroup::Grain);
        r.push(FoodGroup::Meat);
        r.push(FoodGroup::Dairy);
        r.push(FoodGroup::Fat);
        r.push(FoodGroup::Sugar);
        proof {
            assert(r@ =~= seq![
                FoodGroup::Fruit,
                FoodGroup::Vegetable,
                FoodGroup::Grain,
                FoodGroup::Meat,
                FoodGroup::Dairy,
                FoodGroup::Fat,
                FoodGroup::Sugar,
            ]);
        }
        r
    }
}

pub open spec fn groups_contain(s: Seq<FoodGroup>, g: FoodGroup) -> bool {
    exists|i: int| 0 <= i < s.len() && s[i] == g
}

fn groups_contain_exec(s: &Vec<FoodGroup>, g: FoodGroup) -> (r: bool)
    ensures
        r == groups_contain(s@, g),
{
    let mut i: usize = 0;
    while i < s.len()
        invariant
            i <= s@.len(),
            forall|t: int| 0 <= t < i ==> s@[t] != g,
        decreases s@.len() - i,
    {
        if s[i] == g {
            return true;
        }
        i = i + 1;
    }
    false
}

/// A concrete piece of food a farm produces.
#[derive(Debug, Clone)]
pub struct Food {
    pub kcal: u64,
    pub ml: u64,
    pub groups: Vec<FoodGroup>,
}

/// A kind of food a farm can be built for.
#[derive(Debug)]
pub struct FoodTemplate {
    pub name: String,
    pub kcal: u64,
    pub ml: u64,
    pub groups: Vec<FoodGroup>,
    pub difficulty: u32,
}

/// The template's content as plain mathematical values.
pub struct FoodTemplateView {
    pub name: Seq<char>,
    pub kcal: int,
    pub ml: int,
    pub groups: Seq<FoodGroup>,
    pub difficulty: int,
}

impl View for FoodTemplate {
    type V = FoodTemplateView;

    open spec fn view(&self) -> FoodTemplateView {
        FoodTemplateView {
            name: self.name@,
            kcal: self.kcal as int,
            ml: self.ml as int,
            groups: self.groups@,
            difficulty: self.difficulty as int,
        }
    }
}

impl Clone for FoodTemplate {
    fn clone(&self) -> (r: Self)
        ensures
            r@ == self@,
    {
        let r = FoodTemplate {
            name: self.name.clone(),
            kcal: self.kcal,
            ml: self.ml,
            groups: crate::ballots::copy_vec(&self.groups),
            difficulty: self.difficulty,
        };
        proof {
            assert(r@.name =~= self@.name);
        }
        r
    }
}

impl FoodTemplate {
    /// A farm of this template grows batches of five.
    pub fn get_food(&self) -> (r: Food)
        requires
            self.kcal <= 1000000,
            self.ml <= 1000000,
        ensures
            r.kcal == 5 * self.kcal,
            r.ml == 5 * self.ml,
            r.groups@ == self.groups@,
    {
        Food { kcal: self.kcal * 5, ml: self.ml * 5, groups: crate::ballots::copy_vec(&self.groups) }
    }
}

/// The kinds of food everyone can choose from.
pub struct FoodCollection {
    pub foods: Vec<FoodTemplate>,
}

/// What one voter refuses and favours eating.
#[derive(Debug)]
pub struct FoodPreferences {
    pub wont_eat: Vec<FoodGroup>,
    pub prefers: Vec<FoodGroup>,
}

/// The two group lists share at least one food group.
pub open spec fn shares_group(a: Seq<FoodGroup>, groups: Seq<FoodGroup>) -> bool {
    exists|i: int| 0 <= i < groups.len() && groups_contain(a, #[trigger] groups[i])
}

/// The voter refuses food carrying any group in the refusal list.
pub open spec fn refuses_groups(wont_eat: Seq<FoodGroup>, groups: Seq<FoodGroup>) -> bool {
    shares_group(wont_eat, groups)
}

/// Whether the two group lists share a food group.
pub fn shares_group_exec(a: &Vec<FoodGroup>, groups: &Vec<FoodGroup>) -> (r: bool)
    ensures
        r == shares_group(a@, groups@),
{
    let mut i: usize = 0;
    while i < groups.len()
        invariant
            i <= groups@.len(),
            forall|t: int| 0 <= t < i ==> !groups_contain(a@, #[trigger] groups@[t]),
        decreases groups@.len() - i,
    {
        if groups_contain_exec(a, groups[i]) {
            return true;
        }
        i = i + 1;
    }
    false
}

impl FoodPreferences {
    pub fn new(wont_eat: Vec<FoodGroup>, prefers: Vec<FoodGroup>) -> (r: Self)
        ensures
            r.wont_eat@ == wont_eat@,
            r.prefers@ == prefers@,
    {
        FoodPreferences { wont_eat, prefers }
    }

    pub fn will_eat(&self, food: &Food) -> (r: bool)
        ensures
            r == !refuses_groups(self.wont_eat@, food.groups@),
    {
        !shares_group_exec(&self.wont_eat, &food.groups)
    }
}

/// A voter's stomach, in millilitres.
#[derive(Debug)]
pub struct Stomach {
    pub max_size_ml: u64,
    pub filled_ml: u64,
}

impl Stomach {
    pub fn new(max_size_ml: u64, filled_ml: u64) -> (r: Self)
        ensures
            r.max_size_ml == max_size_ml,
            r.filled_ml == filled_ml,
    {
        Stomach { max_size_ml, filled_ml }
    }

    pub fn can_eat(&self, food: &Food) -> (r: bool)
        ensures
            r == (self.filled_ml + food.ml <= self.max_size_ml),
    {
        self.filled_ml <= self.max_size_ml && food.ml <= self.max_size_ml - self.filled_ml
    }
}

impl Default for Stomach {
    fn default() -> (r: Self)
        ensures
            r.max_size_ml == 1000,
            r.filled_ml == 500,
    {
        Stomach { max_size_ml: 1000, filled_ml: 500 }
    }
}

} // verus!
