//! Ballot encoders: each voting method reads one voter's rating vector
//! (pre-sorted descending by rating) and derives its own ballot value.

use vstd::prelude::*;
use crate::ratings::{
    complete_ratings, has_index, indices_distinct, lemma_find_rating_entry, find_rating,
    OptionRating,
};
use crate::want_level;

verus! {

/// A method-specific ballot derived from a rating vector.
///
/// Every ballot is abstracted as a sequence of integers (`bview`) so that the
/// generic bundling code can group identical ballots; two ballots of one
/// method are the same ballot exactly when their views are equal.
pub trait VotingMethod: Sized {
    /// The ballot's content as a sequence of integers.
    spec fn bview(&self) -> Seq<int>;

    /// Which rating vectors this encoder accepts.
    spec fn valid_fill(ratings: Seq<OptionRating>) -> bool;

    /// The view of the ballot that `fill` derives from `ratings`.
    spec fn fill_view(ratings: Seq<OptionRating>) -> Seq<int>;

    /// Encode one voter's rating vector as a ballot.
    fn fill(option_ratings: &Vec<OptionRating>) -> (r: Self)
        requires
            Self::valid_fill(option_ratings@),
        ensures
            r.bview() == Self::fill_view(option_ratings@),
    ;

    /// Whether two ballots are the same ballot.
    fn same(&self, other: &Self) -> (r: bool)
        ensures
            r == (self.bview() == other.bview()),
    ;

    /// A fresh ballot with the same content.
    fn duplicate(&self) -> (r: Self)
        ensures
            r.bview() == self.bview(),
    ;
}

/// Encode every voter's rating vector with the method `T`.
pub fn fill<T: VotingMethod>(option_ratings: &Vec<Vec<OptionRating>>) -> (r: Vec<T>)
    requires
        forall|i: int|
            0 <= i < option_ratings@.len() ==> T::valid_fill((#[trigger] option_ratings@[i])@),
    ensures
        r@.len() == option_ratings@.len(),
        forall|i: int|
            0 <= i < r@.len() ==> (#[trigger] r@[i]).bview() == T::fill_view(option_ratings@[i]@),
{
    let mut r: Vec<T> = Vec::new();
    let mut i: usize = 0;
    while i < option_ratings.len()
        invariant
            i <= option_ratings@.len(),
            r@.len() == i,
            forall|t: int|
                0 <= t < option_ratings@.len() ==> T::valid_fill((#[trigger] option_ratings@[t])@),
            forall|t: int|
                0 <= t < i ==> (#[trigger] r@[t]).bview() == T::fill_view(option_ratings@[t]@),
        decreases option_ratings@.len() - i,
    {
        r.push(T::fill(&option_ratings[i]));
        i = i + 1;
    }
    r
}

pub open spec fn usize_seq_view(s: Seq<usize>) -> Seq<int> {
    s.map_values(|x: usize| x as int)
}

pub open spec fn score_seq_view(s: Seq<i32>) -> Seq<int> {
    s.map_values(|x: i32| x as int)
}

fn usize_vecs_same(a: &Vec<usize>, b: &Vec<usize>) -> (r: bool)
    ensures
        r == (usize_seq_view(a@) == usize_seq_view(b@)),
{
    if a.len() != b.len() {
        proof {
            assert(usize_seq_view(a@).len() != usize_seq_view(b@).len());
        }
        return false;
    }
    let mut i: usize = 0;
    while i < a.len()
        invariant
            a@.len() == b@.len(),
            i <= a@.len(),
            forall|t: int| 0 <= t < i ==> a@[t] == b@[t],
        decreases a@.len() - i,
    {
        if a[i] != b[i] {
            assert(usize_seq_view(a@)[i as int] != usize_seq_view(b@)[i as int]);
            return false;
        }
        i = i + 1;
    }
    proof {
        assert(usize_seq_view(a@) =~= usize_seq_view(b@));
    }
    true
}

pub fn copy_vec<T: Copy>(v: &Vec<T>) -> (r: Vec<T>)
    ensures
        r@ == v@,
{
    let mut r: Vec<T> = Vec::new();
    let mut i: usize = 0;
    while i < v.len()
        invariant
            i <= v@.len(),
            r@ =~= v@.take(i as int),
        decreases v@.len() - i,
    {
        r.push(v[i]);
        i = i + 1;
    }
    proof {
        assert(v@.take(v@.len() as int) =~= v@);
    }
    r
}

/// Votes for the single highest-rated option: position 0 of the pre-sorted
/// rating vector.
#[derive(Debug, Default, Clone, Copy, Hash, PartialEq, Eq)]
pub struct SingleOptionBallot {
    pub voted_for: usize,
}

impl VotingMethod for SingleOptionBallot {
    open spec fn bview(&self) -> Seq<int> {
        seq![self.voted_for as int]
    }

    open spec fn valid_fill(ratings: Seq<OptionRating>) -> bool {
        ratings.len() >= 1
    }

    open spec fn fill_view(ratings: Seq<OptionRating>) -> Seq<int> {
        seq![ratings[0].option_index as int]
    }

    fn fill(option_ratings: &Vec<OptionRating>) -> (r: Self) {
        SingleOptionBallot { voted_for: option_ratings[0].option_index }
    }

    fn same(&self, other: &Self) -> (r: bool) {
        proof {
            if self.voted_for == other.voted_for {
                assert(self.bview() =~= other.bview());
            } else {
                assert(self.bview()[0] != other.bview()[0]);
            }
        }
        self.voted_for == other.voted_for
    }

    fn duplicate(&self) -> (r: Self) {
        SingleOptionBallot { voted_for: self.voted_for }
    }
}

/// The approval threshold: every option rated at least this approves.
pub open spec fn approves(r: OptionRating) -> bool {
    r.rating >= want_level::SLIGHTLY_POSITIVE
}

/// The approved option indices, in rating-vector order.
pub open spec fn approved_seq(rs: Seq<OptionRating>) -> Seq<int>
    decreases rs.len(),
{
    if rs.len() == 0 {
        Seq::empty()
    } else {
        approved_seq(rs.drop_last()) + (if approves(rs.last()) {
            seq![rs.last().option_index as int]
        } else {
            Seq::empty()
        })
    }
}

/// Approval ballot: all options rated at least `SLIGHTLY_POSITIVE`.
#[derive(Debug, Default, Clone, Hash, PartialEq, Eq)]
pub struct MultipleOptionBallot {
    pub voted_for: Vec<usize>,
}

impl VotingMethod for MultipleOptionBallot {
    open spec fn bview(&self) -> Seq<int> {
        usize_seq_view(self.voted_for@)
    }

    open spec fn valid_fill(ratings: Seq<OptionRating>) -> bool {
        true
    }

    open spec fn fill_view(ratings: Seq<OptionRating>) -> Seq<int> {
        approved_seq(ratings)
    }

    fn fill(option_ratings: &Vec<OptionRating>) -> (r: Self) {
        let ghost rs = option_ratings@;
        let mut voting_for: Vec<usize> = Vec::new();
        let mut i: usize = 0;
        while i < option_ratings.len()
            invariant
                i <= rs.len(),
                option_ratings@ == rs,
                usize_seq_view(voting_for@) =~= approved_seq(rs.take(i as int)),
            decreases rs.len() - i,
        {
            proof {
                assert(rs.take(i + 1).drop_last() =~= rs.take(i as int));
                assert(rs.take(i + 1).last() == rs[i as int]);
            }
            if option_ratings[i].rating >= want_level::SLIGHTLY_POSITIVE {
                voting_for.push(option_ratings[i].option_index);
            }
            i = i + 1;
        }
        proof {
            assert(rs.take(rs.len() as int) =~= rs);
        }
        MultipleOptionBallot { voted_for: voting_for }
    }

    fn same(&self, other: &Self) -> (r: bool) {
        usize_vecs_same(&self.voted_for, &other.voted_for)
    }

    fn duplicate(&self) -> (r: Self) {
        MultipleOptionBallot { voted_for: copy_vec(&self.voted_for) }
    }
}

/// Full ranking ballot: the option indices in the order of the pre-sorted
/// rating vector.
#[derive(Debug, Default, Clone, Hash, PartialEq, Eq)]
pub struct MandatoryPreferentialBallot {
    pub votes: Vec<usize>,
}

impl VotingMethod for MandatoryPreferentialBallot {
    open spec fn bview(&self) -> Seq<int> {
        usize_seq_view(self.votes@)
    }

    open spec fn valid_fill(ratings: Seq<OptionRating>) -> bool {
        true
    }

    open spec fn fill_view(ratings: Seq<OptionRating>) -> Seq<int> {
        ratings.map_values(|r: OptionRating| r.option_index as int)
    }

    fn fill(option_ratings: &Vec<OptionRating>) -> (r: Self) {
        let ghost rs = option_ratings@;
        let mut votes: Vec<usize> = Vec::new();
        let mut i: usize = 0;
        while i < option_ratings.len()
            invariant
                i <= rs.len(),
                option_ratings@ == rs,
                votes@.len() == i,
                forall|t: int| 0 <= t < i ==> votes@[t] == rs[t].option_index,
            decreases rs.len() - i,
        {
            votes.push(option_ratings[i].option_index);
            i = i + 1;
        }
        proof {
            assert(usize_seq_view(votes@) =~= rs.map_values(|r: OptionRating| r.option_index as int));
        }
        MandatoryPreferentialBallot { votes }
    }

    fn same(&self, other: &Self) -> (r: bool) {
        usize_vecs_same(&self.votes, &other.votes)
    }

    fn duplicate(&self) -> (r: Self) {
        MandatoryPreferentialBallot { votes: copy_vec(&self.votes) }
    }
}

/// Tri-level judgment of one option.
#[derive(Debug, Clone, Copy, Hash, PartialEq, Eq, Structural)]
pub enum GoodOkBad {
    Bad,
    Okay,
    Good,
}

/// Numeric value of a grade: Bad < Ok < Good.
pub open spec fn grade_num(g: GoodOkBad) -> int {
    match g {
        GoodOkBad::Bad => 0,
        GoodOkBad::Okay => 1,
        GoodOkBad::Good => 2,
    }
}

/// The grade a rating earns: Good from `POSITIVE` up, Ok from
/// `SLIGHTLY_NEGATIVE` up, Bad below.
pub open spec fn grade_of(rating: int) -> int {
    if rating >= want_level::POSITIVE as int {
        2
    } else if rating >= want_level::SLIGHTLY_NEGATIVE as int {
        1
    } else {
        0
    }
}

impl GoodOkBad {
    /// Numeric value of this grade, for runoff comparisons.
    pub fn ordinal(&self) -> (r: u8)
        ensures
            r as int == grade_num(*self),
    {
        match self {
            GoodOkBad::Bad => 0,
            GoodOkBad::Okay => 1,
            GoodOkBad::Good => 2,
        }
    }

    pub fn from_rating(rating: i32) -> (g: GoodOkBad)
        ensures
            grade_num(g) == grade_of(rating as int),
    {
        if rating >= want_level::POSITIVE {
            GoodOkBad::Good
        } else if rating >= want_level::SLIGHTLY_NEGATIVE {
            GoodOkBad::Okay
        } else {
            GoodOkBad::Bad
        }
    }
}

pub open spec fn grade_seq_view(s: Seq<GoodOkBad>) -> Seq<int> {
    s.map_values(|g: GoodOkBad| grade_num(g))
}

/// Per-option tri-level ballot: entry `j` grades option `j`.
#[derive(Debug, Default, Clone, Hash, PartialEq, Eq)]
pub struct GoodBadOkBallot {
    pub votes: Vec<GoodOkBad>,
}

impl VotingMethod for GoodBadOkBallot {
    open spec fn bview(&self) -> Seq<int> {
        grade_seq_view(self.votes@)
    }

    open spec fn valid_fill(ratings: Seq<OptionRating>) -> bool {
        complete_ratings(ratings, ratings.len() as int)
    }

    open spec fn fill_view(ratings: Seq<OptionRating>) -> Seq<int> {
        Seq::new(ratings.len(), |j: int| grade_of(find_rating(ratings, j)))
    }

    fn fill(option_ratings: &Vec<OptionRating>) -> (r: Self) {
        let ghost rs = option_ratings@;
        let n = option_ratings.len();
        let mut votes: Vec<GoodOkBad> = Vec::new();
        let mut i: usize = 0;
        while i < n
            invariant
                i <= n,
                votes@.len() == i,
                forall|j: int| 0 <= j < i ==> votes@[j] == GoodOkBad::Bad,
            decreases n - i,
        {
            votes.push(GoodOkBad::Bad);
            i = i + 1;
        }
        let mut k: usize = 0;
        while k < n
            invariant
                k <= n,
                option_ratings@ == rs,
                rs.len() == n,
                complete_ratings(rs, n as int),
                votes@.len() == n,
                forall|t: int|
                    0 <= t < k ==> grade_num(votes@[(#[trigger] rs[t]).option_index as int])
                        == grade_of(rs[t].rating as int),
                forall|j: int|
                    0 <= j < n && (forall|t: int| 0 <= t < k ==> (#[trigger] rs[t]).option_index != j)
                        ==> votes@[j] == GoodOkBad::Bad,
            decreases n - k,
        {
            let idx = option_ratings[k].option_index;
            votes.set(idx, GoodOkBad::from_rating(option_ratings[k].rating));
            k = k + 1;
        }
        proof {
            assert forall|j: int| 0 <= j < n implies grade_num(votes@[j]) == grade_of(
                find_rating(rs, j),
            ) by {
                assert(has_index(rs, j));
                let t = choose|t: int| 0 <= t < rs.len() && (#[trigger] rs[t]).option_index == j;
                lemma_find_rating_entry(rs, t);
            }
            assert(grade_seq_view(votes@) =~= Seq::new(rs.len(), |j: int| grade_of(find_rating(rs, j))));
        }
        GoodBadOkBallot { votes }
    }

    fn same(&self, other: &Self) -> (r: bool) {
        let a = &self.votes;
        let b = &other.votes;
        if a.len() != b.len() {
            proof {
                assert(grade_seq_view(a@).len() != grade_seq_view(b@).len());
            }
            return false;
        }
        let mut i: usize = 0;
        while i < a.len()
            invariant
                a@ == self.votes@,
                b@ == other.votes@,
                a@.len() == b@.len(),
                i <= a@.len(),
                forall|t: int| 0 <= t < i ==> a@[t] == b@[t],
            decreases a@.len() - i,
        {
            if a[i].ordinal() != b[i].ordinal() {
                assert(grade_seq_view(a@)[i as int] != grade_seq_view(b@)[i as int]);
                return false;
            }
            assert(a@[i as int] == b@[i as int]);
            i = i + 1;
        }
        proof {
            assert(grade_seq_view(a@) =~= grade_seq_view(b@));
        }
        true
    }

    fn duplicate(&self) -> (r: Self) {
        GoodBadOkBallot { votes: copy_vec(&self.votes) }
    }
}

pub type Score = i32;

/// A score-scale bucket: ratings of at least `rating` earn `score`, unless an
/// earlier (higher-score) bucket already matched.
#[derive(Debug, Clone, Copy, Hash, PartialEq, Eq, Structural)]
pub struct Threshold {
    pub rating: Score,
    pub score: Score,
}

/// Index into the seven-level scale that bucket `s` of an `n + 1`-bucket
/// scale samples.
pub open spec fn level_index(n: int, s: int) -> int {
    6 * s / (n + 1)
}

/// The rating level that score `s` of an `n + 1`-bucket scale requires.
pub open spec fn level_at(n: int, s: int) -> int {
    want_level::level_value(level_index(n, s))
}

pub open spec fn score_from(n: int, s: int, r: int) -> int
    decreases s,
{
    if s <= 0 {
        0
    } else if r >= level_at(n, s) {
        s
    } else {
        score_from(n, s - 1, r)
    }
}

/// The score in `0..=n` that rating `r` earns: the highest bucket whose
/// required level `r` reaches, or 0.
pub open spec fn score_of(n: int, r: int) -> int {
    score_from(n, n, r)
}

/// The bucket thresholds for scores `0..=n`, highest score first.
pub fn get_thresholds_scores(n: usize) -> (r: Vec<Threshold>)
    requires
        n <= 1000,
    ensures
        r@.len() == n + 1,
        forall|k: int|
            0 <= k <= n ==> (#[trigger] r@[k]).score == n - k && r@[k].rating == level_at(
                n as int,
                n - k,
            ),
{
    let mut r: Vec<Threshold> = Vec::new();
    let mut k: usize = 0;
    while k <= n
        invariant
            n <= 1000,
            k <= n + 1,
            r@.len() == k,
            forall|t: int|
                0 <= t < k ==> (#[trigger] r@[t]).score == n - t && r@[t].rating == level_at(
                    n as int,
                    n - t,
                ),
        decreases n + 1 - k,
    {
        let s = n - k;
        let idx = 6 * s / (n + 1);
        assert(idx == level_index(n as int, s as int)) by {
            assert(6 * (s as int) == (6 * s) as int);
        };
        assert(idx <= 6) by {
            vstd::arithmetic::div_mod::lemma_multiply_divide_lt(6 * (s as int), (n as int) + 1, 7);
        };
        let rating: i32 = -30 + 10 * (idx as i32);
        r.push(Threshold { rating, score: s as i32 });
        k = k + 1;
    }
    r
}

/// Per-option score ballot on the `0..=N` scale: entry `j` scores option `j`.
#[derive(Debug, Default, Clone, Hash, PartialEq, Eq)]
pub struct ScoreBallot<const N: usize> {
    pub votes: Vec<Score>,
}

pub fn score_for_rating(thresholds: &Vec<Threshold>, n: usize, rating: i32) -> (s: Score)
    requires
        n <= 1000,
        thresholds@.len() == n + 1,
        forall|k: int|
            0 <= k <= n ==> (#[trigger] thresholds@[k]).score == n - k && thresholds@[k].rating
                == level_at(n as int, n - k),
    ensures
        s as int == score_of(n as int, rating as int),
{
    let mut k: usize = 0;
    while k <= n
        invariant
            n <= 1000,
            k <= n + 1,
            thresholds@.len() == n + 1,
            forall|t: int|
                0 <= t <= n ==> (#[trigger] thresholds@[t]).score == n - t && thresholds@[t].rating
                    == level_at(n as int, n - t),
            score_of(n as int, rating as int) == score_from(n as int, n - k, rating as int),
        decreases n + 1 - k,
    {
        if rating >= thresholds[k].rating {
            return thresholds[k].score;
        }
        k = k + 1;
    }
    0
}

impl<const N: usize> VotingMethod for ScoreBallot<N> {
    open spec fn bview(&self) -> Seq<int> {
        score_seq_view(self.votes@)
    }

    open spec fn valid_fill(ratings: Seq<OptionRating>) -> bool {
        &&& complete_ratings(ratings, ratings.len() as int)
        &&& N <= 1000
    }

    open spec fn fill_view(ratings: Seq<OptionRating>) -> Seq<int> {
        Seq::new(ratings.len(), |j: int| score_of(N as int, find_rating(ratings, j)))
    }

    fn fill(option_ratings: &Vec<OptionRating>) -> (r: Self) {
        let ghost rs = option_ratings@;
        let n = option_ratings.len();
        let thresholds = get_thresholds_scores(N);
        let mut votes: Vec<Score> = Vec::new();
        let mut i: usize = 0;
        while i < n
            invariant
                i <= n,
                votes@.len() == i,
                forall|j: int| 0 <= j < i ==> votes@[j] == 0i32,
            decreases n - i,
        {
            votes.push(0);
            i = i + 1;
        }
        let mut k: usize = 0;
        while k < n
            invariant
                k <= n,
                option_ratings@ == rs,
                rs.len() == n,
                complete_ratings(rs, n as int),
                N <= 1000,
                thresholds@.len() == N + 1,
                forall|t: int|
                    0 <= t <= N ==> (#[trigger] thresholds@[t]).score == N - t
                        && thresholds@[t].rating == level_at(N as int, N - t),
                votes@.len() == n,
                forall|t: int|
                    0 <= t < k ==> votes@[(#[trigger] rs[t]).option_index as int] as int == score_of(
                        N as int,
                        rs[t].rating as int,
                    ),
                forall|j: int|
                    0 <= j < n && (forall|t: int| 0 <= t < k ==> (#[trigger] rs[t]).option_index != j)
                        ==> votes@[j] == 0i32,
            decreases n - k,
        {
            let idx = option_ratings[k].option_index;
            let s = score_for_rating(&thresholds, N, option_ratings[k].rating);
            votes.set(idx, s);
            k = k + 1;
        }
        proof {
            assert forall|j: int| 0 <= j < n implies votes@[j] as int == score_of(
                N as int,
                find_rating(rs, j),
            ) by {
                assert(has_index(rs, j));
                let t = choose|t: int| 0 <= t < rs.len() && (#[trigger] rs[t]).option_index == j;
                lemma_find_rating_entry(rs, t);
            }
            assert(score_seq_view(votes@) =~= Seq::new(
                rs.len(),
                |j: int| score_of(N as int, find_rating(rs, j)),
            ));
        }
        ScoreBallot { votes }
    }

    fn same(&self, other: &Self) -> (r: bool) {
        let a = &self.votes;
        let b = &other.votes;
        if a.len() != b.len() {
            proof {
                assert(score_seq_view(a@).len() != score_seq_view(b@).len());
            }
            return false;
        }
        let mut i: usize = 0;
        while i < a.len()
            invariant
                a@ == self.votes@,
                b@ == other.votes@,
                a@.len() == b@.len(),
                i <= a@.len(),
                forall|t: int| 0 <= t < i ==> a@[t] == b@[t],
            decreases a@.len() - i,
        {
            if a[i] != b[i] {
                assert(score_seq_view(a@)[i as int] != score_seq_view(b@)[i as int]);
                return false;
            }
            i = i + 1;
        }
        proof {
            assert(score_seq_view(a@) =~= score_seq_view(b@));
        }
        true
    }

    fn duplicate(&self) -> (r: Self) {
        ScoreBallot { votes: copy_vec(&self.votes) }
    }
}

/// A strictly higher rating never earns a lower score: the bucket mapping is
/// monotone.
pub proof fn lemma_score_monotonic(n: int, r1: int, r2: int)
    requires
        r1 <= r2,
    ensures
        score_of(n, r1) <= score_of(n, r2),
{
    lemma_score_from_monotonic(n, n, r1, r2);
}

pub proof fn lemma_score_from_bounds(n: int, s: int, r: int)
    ensures
        0 <= score_from(n, s, r) <= (if s >= 0 { s } else { 0 }),
    decreases s,
{
    if s > 0 && !(r >= level_at(n, s)) {
        lemma_score_from_bounds(n, s - 1, r);
    }
}

proof fn lemma_score_from_monotonic(n: int, s: int, r1: int, r2: int)
    requires
        r1 <= r2,
    ensures
        score_from(n, s, r1) <= score_from(n, s, r2),
    decreases s,
{
    if s > 0 {
        if r2 >= level_at(n, s) {
            lemma_score_from_bounds(n, s, r1);
        } else {
            lemma_score_from_monotonic(n, s - 1, r1, r2);
        }
    }
}

/// Votes against the single lowest-rated option: the last position of the
/// pre-sorted rating vector.
#[derive(Debug, Default, Clone, Copy, Hash, PartialEq, Eq)]
pub struct LeastFavoriteSingleOptionBallot {
    pub least_favorite: usize,
}

impl VotingMethod for LeastFavoriteSingleOptionBallot {
    open spec fn bview(&self) -> Seq<int> {
        seq![self.least_favorite as int]
    }

    open spec fn valid_fill(ratings: Seq<OptionRating>) -> bool {
        ratings.len() >= 1
    }

    open spec fn fill_view(ratings: Seq<OptionRating>) -> Seq<int> {
        seq![ratings.last().option_index as int]
    }

    fn fill(option_ratings: &Vec<OptionRating>) -> (r: Self) {
        LeastFavoriteSingleOptionBallot {
            least_favorite: option_ratings[option_ratings.len() - 1].option_index,
        }
    }

    fn same(&self, other: &Self) -> (r: bool) {
        proof {
            if self.least_favorite == other.least_favorite {
                assert(self.bview() =~= other.bview());
            } else {
                assert(self.bview()[0] != other.bview()[0]);
            }
        }
        self.least_favorite == other.least_favorite
    }

    fn duplicate(&self) -> (r: Self) {
        LeastFavoriteSingleOptionBallot { least_favorite: self.least_favorite }
    }
}

} // verus!
