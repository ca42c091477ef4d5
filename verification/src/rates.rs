//! Ratios rounded for display: the chance of a purchase or a sale, and how
//! often an item is traded.
//!
//! A ratio is rounded to the nearest whole number, and a ratio that lies
//! half-way between two whole numbers to the even one.

use crate::decimal::{decimal, decimal_text, hundredths, hundredths_text};
use vstd::arithmetic::div_mod::{lemma_fundamental_div_mod, lemma_mod_bound};
use vstd::prelude::*;
use vstd::string::StringExecFns;

verus! {

/// A chance of one hundred percent, in hundredths of a percent.
pub const FULL_CHANCE: u32 = 10_000;

/// The days of a month, in hundredths of a day: a fixed approximation, not a
/// calendar month.
pub const MONTH_IN_HUNDREDTHS_OF_A_DAY: u64 = 3_044;

/// The whole number nearest to `num / den`, the even one of two that are
/// equally near.
pub open spec fn nearest(num: nat, den: nat) -> nat
    recommends
        den > 0,
{
    let q = num / den;
    let r = num % den;
    if 2 * r < den {
        q
    } else if 2 * r > den {
        q + 1
    } else if q % 2 == 0 {
        q
    } else {
        q + 1
    }
}

/// The whole number nearest to `num / den`.
pub fn round_ratio(num: u128, den: u128) -> (rounded: u128)
    requires
        den > 0,
    ensures
        rounded == nearest(num as nat, den as nat),
{
    let q = num / den;
    let r = num % den;
    proof {
        lemma_fundamental_div_mod(num as int, den as int);
        lemma_mod_bound(num as int, den as int);
        if r > 0 {
            assert(den >= 2);
            assert(den * q >= 2 * q) by (nonlinear_arith)
                requires
                    den >= 2,
                    q >= 0,
            ;
        }
    }
    if r < den - r {
        q
    } else if r > den - r {
        q + 1
    } else if q % 2 == 0 {
        q
    } else {
        q + 1
    }
}

/// Rounding a ratio of at most `limit` gives at most `limit`, and the ratio
/// of nothing is nothing.
pub proof fn nearest_is_bounded(num: nat, den: nat, limit: nat)
    requires
        den > 0,
        num <= limit * den,
    ensures
        nearest(num, den) <= limit,
        nearest(0, den) == 0,
{
    let q = num / den;
    let r = num % den;
    lemma_fundamental_div_mod(num as int, den as int);
    lemma_mod_bound(num as int, den as int);
    lemma_fundamental_div_mod(0, den as int);
    lemma_mod_bound(0, den as int);
    assert(0nat / den == 0) by {
        assert(den * (0int / (den as int)) <= 0);
        if 0int / (den as int) < 0 {
            assert(den * (0int / (den as int)) <= -(den as int)) by (nonlinear_arith)
                requires
                    0int / (den as int) <= -1,
                    den > 0,
            ;
        } else if 0int / (den as int) > 0 {
            assert(den * (0int / (den as int)) >= den) by (nonlinear_arith)
                requires
                    0int / (den as int) >= 1,
                    den > 0,
            ;
        }
    }
    if q >= limit {
        assert(den * q >= den * limit) by (nonlinear_arith)
            requires
                q >= limit,
                den > 0,
        ;
        assert(limit * den == den * limit) by (nonlinear_arith);
        assert(r == 0);
        assert(den * q == den * limit);
        assert(q == limit) by (nonlinear_arith)
            requires
                den * q == den * limit,
                den > 0,
        ;
    }
}

/// The chance, in hundredths of a percent, that `count` of `total` decided
/// posts stand for: nothing where there is no such post.
pub open spec fn chance_of(count: nat, total: nat) -> nat {
    if total > 0 && count > 0 {
        nearest(count * 10_000, total)
    } else {
        0
    }
}

/// The chances to buy and to sell an item, in hundredths of a percent.
#[derive(Clone, Copy, Debug, PartialEq, Eq, Structural)]
pub struct TradeChance {
    /// The share of requests among the posts that say what they want.
    pub chance_to_buy: u32,
    /// The share of offers among them.
    pub chance_to_sell: u32,
}

/// The chances to buy and to sell, from the numbers of offers and requests.
pub open spec fn chances_of(supply_posts: nat, demand_posts: nat) -> TradeChance {
    TradeChance {
        chance_to_buy: chance_of(demand_posts, supply_posts + demand_posts) as u32,
        chance_to_sell: chance_of(supply_posts, supply_posts + demand_posts) as u32,
    }
}

/// A chance in words: the percentage with two decimals, and a percent sign.
pub open spec fn chance_text(chance: u32) -> Seq<char> {
    hundredths_text(chance as nat) + "%"@
}

impl TradeChance {
    /// The chance to buy, in words.
    pub fn buy_text(&self) -> (text: String)
        ensures
            text@ == chance_text(self.chance_to_buy),
    {
        let mut text = hundredths(self.chance_to_buy as u128);
        text.append("%");
        text
    }

    /// The chance to sell, in words.
    pub fn sell_text(&self) -> (text: String)
        ensures
            text@ == chance_text(self.chance_to_sell),
    {
        let mut text = hundredths(self.chance_to_sell as u128);
        text.append("%");
        text
    }
}

/// A chance is a percentage: between nothing and one hundred percent, and
/// nothing where `count` is.
pub proof fn chance_is_a_percentage(count: nat, total: nat)
    requires
        count <= total,
    ensures
        0 <= chance_of(count, total) <= FULL_CHANCE,
        count == 0 ==> chance_of(count, total) == 0,
{
    if total > 0 && count > 0 {
        assert(count * 10_000 <= 10_000 * total) by (nonlinear_arith)
            requires
                count <= total,
        ;
        nearest_is_bounded(count * 10_000, total, 10_000);
    }
}

/// The chances to buy and to sell, from the numbers of offers and requests.
/// Posts that say neither count for neither, so the two need not sum to one
/// hundred percent of all posts; of the decided posts they are the shares.
pub fn trade_chances(supply_posts: u64, demand_posts: u64) -> (chances: TradeChance)
    ensures
        chances == chances_of(supply_posts as nat, demand_posts as nat),
        chances.chance_to_buy == chance_of(demand_posts as nat, (supply_posts + demand_posts) as nat),
        chances.chance_to_sell == chance_of(supply_posts as nat, (supply_posts + demand_posts) as nat),
        chances.chance_to_buy <= FULL_CHANCE,
        chances.chance_to_sell <= FULL_CHANCE,
        demand_posts == 0 ==> chances.chance_to_buy == 0,
        supply_posts == 0 ==> chances.chance_to_sell == 0,
{
    let total: u128 = supply_posts as u128 + demand_posts as u128;
    proof {
        chance_is_a_percentage(demand_posts as nat, total as nat);
        chance_is_a_percentage(supply_posts as nat, total as nat);
    }
    let chance_to_buy = if total > 0 && demand_posts > 0 {
        round_ratio(demand_posts as u128 * 10_000, total) as u32
    } else {
        0
    };
    let chance_to_sell = if total > 0 && supply_posts > 0 {
        round_ratio(supply_posts as u128 * 10_000, total) as u32
    } else {
        0
    };
    TradeChance { chance_to_buy, chance_to_sell }
}

/// How often an item is traded, by the coarsest unit of time in which it is
/// traded at least once.
#[derive(Clone, Copy, Debug, PartialEq, Eq, Structural)]
pub enum Frequency {
    /// No decided post, or no whole day of data.
    NotObserved,
    /// At least once a day: so many hundredths of a time per day.
    PerDay { hundredths: u128 },
    /// At least once a week: so many hundredths of a time per week.
    PerWeek { hundredths: u128 },
    /// At least once a month: so many hundredths of a time per month.
    PerMonth { hundredths: u128 },
    /// Less than once a month: once in so many days.
    OnceEvery { days: u64 },
}

/// A frequency in words.
pub open spec fn frequency_text(frequency: Frequency) -> Seq<char> {
    match frequency {
        Frequency::NotObserved => "Infrequently/Not observed"@,
        Frequency::PerDay { hundredths } => hundredths_text(hundredths as nat) + " times/day"@,
        Frequency::PerWeek { hundredths } => hundredths_text(hundredths as nat) + " times/week"@,
        Frequency::PerMonth { hundredths } => hundredths_text(hundredths as nat)
            + " times/month"@,
        Frequency::OnceEvery { days } => "Once every "@ + decimal_text(days as nat) + " days"@,
    }
}

impl Frequency {
    /// The frequency in words.
    pub fn describe(&self) -> (text: String)
        ensures
            text@ == frequency_text(*self),
    {
        match self {
            Frequency::NotObserved => String::from_str("Infrequently/Not observed"),
            Frequency::PerDay { hundredths: h } => {
                let mut text = hundredths(*h);
                text.append(" times/day");
                text
            },
            Frequency::PerWeek { hundredths: h } => {
                let mut text = hundredths(*h);
                text.append(" times/week");
                text
            },
            Frequency::PerMonth { hundredths: h } => {
                let mut text = hundredths(*h);
                text.append(" times/month");
                text
            },
            Frequency::OnceEvery { days } => {
                let mut text = String::from_str("Once every ");
                let number = decimal(*days as u128);
                text.append(number.as_str());
                text.append(" days");
                text
            },
        }
    }
}

/// The frequency of `posts` decided posts in `days` whole days of data.
pub open spec fn frequency_of(posts: nat, days: nat) -> Frequency {
    if posts == 0 || days == 0 {
        Frequency::NotObserved
    } else if posts >= days {
        Frequency::PerDay { hundredths: nearest(100 * posts, days) as u128 }
    } else if 7 * posts >= days {
        Frequency::PerWeek { hundredths: nearest(700 * posts, days) as u128 }
    } else if MONTH_IN_HUNDREDTHS_OF_A_DAY * posts >= 100 * days {
        Frequency::PerMonth {
            hundredths: nearest((MONTH_IN_HUNDREDTHS_OF_A_DAY * posts) as nat, days) as u128,
        }
    } else {
        Frequency::OnceEvery { days: nearest(days, posts) as u64 }
    }
}

/// The frequency of `posts` decided posts in `days` whole days of data: the
/// days are those of the whole log, not of the item.
pub fn classify_frequency(posts: u64, days: u64) -> (frequency: Frequency)
    ensures
        frequency == frequency_of(posts as nat, days as nat),
{
    if posts == 0 || days == 0 {
        return Frequency::NotObserved;
    }
    let p = posts as u128;
    let d = days as u128;
    let month = MONTH_IN_HUNDREDTHS_OF_A_DAY as u128;
    assert(month == 3_044);
    if p >= d {
        Frequency::PerDay { hundredths: round_ratio(100 * p, d) }
    } else if 7 * p >= d {
        Frequency::PerWeek { hundredths: round_ratio(700 * p, d) }
    } else if month * p >= 100 * d {
        Frequency::PerMonth { hundredths: round_ratio(month * p, d) }
    } else {
        proof {
            assert(days <= days * posts) by (nonlinear_arith)
                requires
                    posts >= 1,
            ;
            nearest_is_bounded(days as nat, posts as nat, days as nat);
        }
        Frequency::OnceEvery { days: round_ratio(d, p) as u64 }
    }
}

} // verus!
