//! Reindeer records, their total strength, and the contest that names one
//! winner per category with a stable first-maximum rule.

use crate::error::Error;
use crate::text::{decimal, decimal_string};
use vstd::prelude::*;
use vstd::string::StringExecFns;

verus! {

/// One reindeer as submitted by a caller.
#[derive(Clone, Debug)]
pub struct Reindeer {
    pub name: String,
    pub strength: u32,
    /// The speed as an order-preserving integer: a faster reindeer has a
    /// larger key, and equal speeds have equal keys.
    pub speed_key: u64,
    pub height: u32,
    pub antler_width: u32,
    pub snow_magic_power: u32,
    pub favorite_food: String,
    pub candies_eaten: u32,
}

/// The four categories of the contest.
#[derive(Clone, Copy, Debug, PartialEq, Eq, Structural)]
pub enum Category {
    Fastest,
    Tallest,
    Magician,
    Consumer,
}

/// The number by which a reindeer is ranked in a category.
pub open spec fn category_key(r: Reindeer, c: Category) -> int {
    match c {
        Category::Fastest => r.speed_key as int,
        Category::Tallest => r.height + r.antler_width,
        Category::Magician => r.snow_magic_power as int,
        Category::Consumer => r.candies_eaten as int,
    }
}

/// The ranking numbers of all records in a category, in input order.
pub open spec fn category_keys(records: Seq<Reindeer>, c: Category) -> Seq<int> {
    Seq::new(records.len(), |i: int| category_key(records[i], c))
}

/// `i` is the position of the stable maximum of `keys`: no key is larger, and
/// every key before it is strictly smaller.
pub open spec fn is_first_max(keys: Seq<int>, i: int) -> bool {
    &&& 0 <= i < keys.len()
    &&& forall|j: int| 0 <= j < keys.len() ==> #[trigger] keys[j] <= keys[i]
    &&& forall|j: int| 0 <= j < i ==> #[trigger] keys[j] < keys[i]
}

/// The position of the winner of a category among `records`.
pub open spec fn winner(records: Seq<Reindeer>, c: Category) -> int {
    choose|i: int| is_first_max(category_keys(records, c), i)
}

/// The total of the `strength` fields of `records`.
pub open spec fn strength_sum(records: Seq<Reindeer>) -> nat
    decreases records.len(),
{
    if records.len() == 0 {
        0
    } else {
        strength_sum(records.drop_last()) + records.last().strength as nat
    }
}

/// The sentence about the fastest reindeer.
pub open spec fn fastest_sentence(name: Seq<char>, strength: u32) -> Seq<char> {
    "Speeding past the finish line with a strength of "@ + decimal(strength as nat) + " is "@
        + name
}

/// The sentence about the tallest reindeer.
pub open spec fn tallest_sentence(name: Seq<char>, antler_width: u32) -> Seq<char> {
    name + " is standing tall with his "@ + decimal(antler_width as nat) + " cm wide antlers"@
}

/// The sentence about the reindeer with the strongest snow magic.
pub open spec fn magician_sentence(name: Seq<char>, snow_magic_power: u32) -> Seq<char> {
    name + " could blast you away with a snow magic power of "@ + decimal(snow_magic_power as nat)
}

/// The sentence about the reindeer that ate the most candies.
pub open spec fn consumer_sentence(name: Seq<char>, favorite_food: Seq<char>) -> Seq<char> {
    name + " ate lots of candies, but also some "@ + favorite_food
}

/// The four sentences of a contest result, as plain text.
pub struct ContestView {
    pub fastest: Seq<char>,
    pub tallest: Seq<char>,
    pub magician: Seq<char>,
    pub consumer: Seq<char>,
}

/// The result of the contest among a non-empty sequence of records: each
/// sentence is written from the fields of that category's winner.
pub open spec fn contest(records: Seq<Reindeer>) -> ContestView {
    let fastest = records[winner(records, Category::Fastest)];
    let tallest = records[winner(records, Category::Tallest)];
    let magician = records[winner(records, Category::Magician)];
    let consumer = records[winner(records, Category::Consumer)];
    ContestView {
        fastest: fastest_sentence(fastest.name@, fastest.strength),
        tallest: tallest_sentence(tallest.name@, tallest.antler_width),
        magician: magician_sentence(magician.name@, magician.snow_magic_power),
        consumer: consumer_sentence(consumer.name@, consumer.favorite_food@),
    }
}

/// The outcome of a contest: one sentence per category.
#[derive(Clone, Debug)]
pub struct ReindeerComparisonResponse {
    pub fastest: String,
    pub tallest: String,
    pub magician: String,
    pub consumer: String,
}

impl View for ReindeerComparisonResponse {
    type V = ContestView;

    open spec fn view(&self) -> ContestView {
        ContestView {
            fastest: self.fastest@,
            tallest: self.tallest@,
            magician: self.magician@,
            consumer: self.consumer@,
        }
    }
}

/// Collects the four sentences of a contest result one at a time, in any
/// order.
#[derive(Clone, Debug)]
pub struct ReindeerComparisonResponseBuilder {
    pub fastest: String,
    pub tallest: String,
    pub magician: String,
    pub consumer: String,
}

impl View for ReindeerComparisonResponseBuilder {
    type V = ContestView;

    open spec fn view(&self) -> ContestView {
        ContestView {
            fastest: self.fastest@,
            tallest: self.tallest@,
            magician: self.magician@,
            consumer: self.consumer@,
        }
    }
}

impl ReindeerComparisonResponseBuilder {
    /// A builder whose four sentences are empty.
    pub fn new() -> (b: Self)
        ensures
            b@ == (ContestView {
                fastest: Seq::empty(),
                tallest: Seq::empty(),
                magician: Seq::empty(),
                consumer: Seq::empty(),
            }),
    {
        ReindeerComparisonResponseBuilder {
            fastest: String::new(),
            tallest: String::new(),
            magician: String::new(),
            consumer: String::new(),
        }
    }

    /// Sets the sentence about the fastest reindeer and keeps the others.
    pub fn add_fastest(self, name: &str, strength: u32) -> (b: Self)
        ensures
            b@ == (ContestView { fastest: fastest_sentence(name@, strength), ..self@ }),
    {
        let mut s = String::from_str("Speeding past the finish line with a strength of ");
        s.append(decimal_string(strength as u128).as_str());
        s.append(" is ");
        s.append(name);
        ReindeerComparisonResponseBuilder {
            fastest: s,
            tallest: self.tallest,
            magician: self.magician,
            consumer: self.consumer,
        }
    }

    /// Sets the sentence about the tallest reindeer and keeps the others.
    pub fn add_tallest(self, name: &str, antler_width: u32) -> (b: Self)
        ensures
            b@ == (ContestView { tallest: tallest_sentence(name@, antler_width), ..self@ }),
    {
        let mut s = String::from_str(name);
        s.append(" is standing tall with his ");
        s.append(decimal_string(antler_width as u128).as_str());
        s.append(" cm wide antlers");
        ReindeerComparisonResponseBuilder {
            fastest: self.fastest,
            tallest: s,
            magician: self.magician,
            consumer: self.consumer,
        }
    }

    /// Sets the sentence about the strongest magician and keeps the others.
    pub fn add_magician(self, name: &str, snow_magic_power: u32) -> (b: Self)
        ensures
            b@ == (ContestView { magician: magician_sentence(name@, snow_magic_power), ..self@ }),
    {
        let mut s = String::from_str(name);
        s.append(" could blast you away with a snow magic power of ");
        s.append(decimal_string(snow_magic_power as u128).as_str());
        ReindeerComparisonResponseBuilder {
            fastest: self.fastest,
            tallest: self.tallest,
            magician: s,
            consumer: self.consumer,
        }
    }

    /// Sets the sentence about the biggest candy eater and keeps the others.
    pub fn add_consumer(self, name: &str, favorite_food: &str) -> (b: Self)
        ensures
            b@ == (ContestView { consumer: consumer_sentence(name@, favorite_food@), ..self@ }),
    {
        let mut s = String::from_str(name);
        s.append(" ate lots of candies, but also some ");
        s.append(favorite_food);
        ReindeerComparisonResponseBuilder {
            fastest: self.fastest,
            tallest: self.tallest,
            magician: self.magician,
            consumer: s,
        }
    }

    /// The response that holds the four sentences collected so far.
    pub fn build(self) -> (r: ReindeerComparisonResponse)
        ensures
            r@ == self@,
    {
        ReindeerComparisonResponse {
            fastest: self.fastest,
            tallest: self.tallest,
            magician: self.magician,
            consumer: self.consumer,
        }
    }
}

impl Reindeer {
    /// The number by which this reindeer is ranked in category `c`.
    pub fn key(&self, c: Category) -> (k: u64)
        ensures
            k == category_key(*self, c),
    {
        match c {
            Category::Fastest => self.speed_key,
            Category::Tallest => self.height as u64 + self.antler_width as u64,
            Category::Magician => self.snow_magic_power as u64,
            Category::Consumer => self.candies_eaten as u64,
        }
    }
}

/// A sequence of keys has at most one stable maximum.
pub proof fn lemma_first_max_unique(keys: Seq<int>, i: int, j: int)
    requires
        is_first_max(keys, i),
        is_first_max(keys, j),
    ensures
        i == j,
{
    if i < j {
        assert(keys[i] < keys[j]);
        assert(keys[j] <= keys[i]);
    } else if j < i {
        assert(keys[j] < keys[i]);
        assert(keys[i] <= keys[j]);
    }
}

/// Every non-empty sequence of keys has a stable maximum.
pub proof fn lemma_first_max_exists(keys: Seq<int>)
    requires
        keys.len() > 0,
    ensures
        exists|i: int| is_first_max(keys, i),
    decreases keys.len(),
{
    if keys.len() == 1 {
        assert(is_first_max(keys, 0));
    } else {
        let front = keys.drop_last();
        lemma_first_max_exists(front);
        let m = choose|i: int| is_first_max(front, i);
        let last = keys.len() - 1;
        assert(forall|j: int| 0 <= j < front.len() ==> front[j] == keys[j]);
        if keys[last] > keys[m] {
            assert forall|j: int| 0 <= j < keys.len() implies #[trigger] keys[j] <= keys[last] by {
                if j < last {
                    assert(front[j] <= front[m]);
                }
            }
            assert forall|j: int| 0 <= j < last implies #[trigger] keys[j] < keys[last] by {
                assert(front[j] <= front[m]);
            }
            assert(is_first_max(keys, last));
        } else {
            assert forall|j: int| 0 <= j < keys.len() implies #[trigger] keys[j] <= keys[m] by {
                if j < last {
                    assert(front[j] <= front[m]);
                }
            }
            assert forall|j: int| 0 <= j < m implies #[trigger] keys[j] < keys[m] by {
                assert(front[j] < front[m]);
            }
            assert(is_first_max(keys, m));
        }
    }
}

/// In a non-empty contest the winner of a category is the stable maximum of
/// that category's keys.
pub proof fn lemma_winner_is_first_max(records: Seq<Reindeer>, c: Category)
    requires
        records.len() > 0,
    ensures
        is_first_max(category_keys(records, c), winner(records, c)),
        0 <= winner(records, c) < records.len(),
{
    lemma_first_max_exists(category_keys(records, c));
}

/// Among records that share a category's largest key, the one that comes
/// first in the input wins: no record with the winner's key stands before
/// the winner.
pub proof fn lemma_tie_goes_to_first(records: Seq<Reindeer>, c: Category, j: int)
    requires
        records.len() > 0,
        0 <= j < records.len(),
        category_key(records[j], c) == category_key(records[winner(records, c)], c),
    ensures
        winner(records, c) <= j,
{
    lemma_winner_is_first_max(records, c);
    let keys = category_keys(records, c);
    let w = winner(records, c);
    if j < w {
        assert(keys[j] < keys[w]);
    }
}

/// A record that stands alone wins every category, so all four sentences of
/// the contest are written from its own fields.
pub proof fn lemma_single_record_wins(records: Seq<Reindeer>)
    requires
        records.len() == 1,
    ensures
        forall|c: Category| winner(records, c) == 0,
        contest(records) == (ContestView {
            fastest: fastest_sentence(records[0].name@, records[0].strength),
            tallest: tallest_sentence(records[0].name@, records[0].antler_width),
            magician: magician_sentence(records[0].name@, records[0].snow_magic_power),
            consumer: consumer_sentence(records[0].name@, records[0].favorite_food@),
        }),
{
    assert forall|c: Category| winner(records, c) == 0 by {
        lemma_winner_is_first_max(records, c);
    }
}

/// The position of the winner of category `c`: the first record that holds
/// the largest key. `None` exactly when there are no records.
pub fn winner_index(records: &Vec<Reindeer>, c: Category) -> (w: Option<usize>)
    ensures
        records.len() == 0 <==> w is None,
        w matches Some(i) ==> i == winner(records@, c) && is_first_max(
            category_keys(records@, c),
            i as int,
        ),
{
    if records.len() == 0 {
        return None;
    }
    let ghost keys = category_keys(records@, c);
    let mut best: usize = 0;
    let mut best_key: u64 = records[0].key(c);
    let mut i: usize = 1;
    while i < records.len()
        invariant
            1 <= i <= records.len(),
            keys == category_keys(records@, c),
            best < i,
            best_key == keys[best as int],
            forall|j: int| 0 <= j < i ==> #[trigger] keys[j] <= keys[best as int],
            forall|j: int| 0 <= j < best ==> #[trigger] keys[j] < keys[best as int],
        decreases records.len() - i,
    {
        let k: u64 = records[i].key(c);
        if k > best_key {
            best = i;
            best_key = k;
        }
        i += 1;
    }
    proof {
        assert(is_first_max(keys, best as int));
        lemma_winner_is_first_max(records@, c);
        lemma_first_max_unique(keys, best as int, winner(records@, c));
    }
    Some(best)
}

/// Runs the contest: names the winner of each category in a sentence of its
/// own. Fails with `EmptyInputError` exactly when there are no records.
pub fn compare_reindeers(records: &Vec<Reindeer>) -> (r: Result<
    ReindeerComparisonResponse,
    Error,
>)
    ensures
        records.len() == 0 <==> r is Err,
        r matches Err(e) ==> e == Error::EmptyInputError,
        r matches Ok(response) ==> response@ == contest(records@),
{
    let fastest = match winner_index(records, Category::Fastest) {
        Some(i) => &records[i],
        None => { return Err(Error::EmptyInputError); },
    };
    let tallest = match winner_index(records, Category::Tallest) {
        Some(i) => &records[i],
        None => { return Err(Error::EmptyInputError); },
    };
    let magician = match winner_index(records, Category::Magician) {
        Some(i) => &records[i],
        None => { return Err(Error::EmptyInputError); },
    };
    let consumer = match winner_index(records, Category::Consumer) {
        Some(i) => &records[i],
        None => { return Err(Error::EmptyInputError); },
    };
    Ok(
        ReindeerComparisonResponseBuilder::new()
            .add_fastest(fastest.name.as_str(), fastest.strength)
            .add_tallest(tallest.name.as_str(), tallest.antler_width)
            .add_magician(magician.name.as_str(), magician.snow_magic_power)
            .add_consumer(consumer.name.as_str(), consumer.favorite_food.as_str())
            .build(),
    )
}

/// The largest value that a single `strength` can take.
pub const MAX_STRENGTH: u128 = 0xffff_ffff;

/// The sum of the strengths of all records, exact for any number of records.
pub fn total_strength(records: &Vec<Reindeer>) -> (total: u128)
    ensures
        total == strength_sum(records@),
{
    let mut total: u128 = 0;
    let mut i: usize = 0;
    while i < records.len()
        invariant
            i <= records.len(),
            total == strength_sum(records@.take(i as int)),
            total <= i * MAX_STRENGTH,
        decreases records.len() - i,
    {
        assert(records@.take(i + 1).drop_last() =~= records@.take(i as int));
        assert(i * MAX_STRENGTH + MAX_STRENGTH <= usize::MAX * MAX_STRENGTH) by (nonlinear_arith)
            requires
                i < usize::MAX,
        ;
        total = total + records[i].strength as u128;
        i += 1;
    }
    assert(records@.take(i as int) =~= records@);
    total
}

/// The sum of the strengths of all records, as a decimal numeral.
pub fn calc_reindeer_strength(records: &Vec<Reindeer>) -> (s: String)
    ensures
        s@ == decimal(strength_sum(records@)),
{
    decimal_string(total_strength(records))
}

} // verus!
