//! The price distribution of one item: its prices in ascending order, and
//! the least, the greatest and the median of them.

use crate::price::{price_is_its_amount, Price};
use vstd::prelude::*;
use vstd::relations::{sorted_by, total_ordering};
use vstd::seq_lib::{lemma_multiset_commutative, lemma_sorted_unique, to_multiset_build};

verus! {

/// The midpoint of a collection of prices.
#[derive(Clone, Copy, Debug, PartialEq, Eq, Structural)]
pub enum Median {
    /// The middle price of an odd number of prices.
    Single(Price),
    /// The two middle prices of an even number of prices, the lower first:
    /// the median is their average.
    Between(Price, Price),
}

impl Median {
    /// Twice the median, in millionths: a whole number also where the median
    /// itself lies half-way between two millionths.
    pub open spec fn twice(self) -> nat {
        match self {
            Median::Single(p) => 2 * p.amount(),
            Median::Between(low, high) => low.amount() + high.amount(),
        }
    }

    /// Twice the median, in millionths.
    pub fn doubled(&self) -> (d: u128)
        ensures
            d == self.twice(),
    {
        match self {
            Median::Single(p) => 2 * p.micros(),
            Median::Between(low, high) => low.micros() + high.micros(),
        }
    }
}

/// The median, the least and the greatest of a collection of prices; each is
/// absent where there is no price.
#[derive(Clone, Copy, Debug, PartialEq, Eq, Structural)]
pub struct EstimatedPrice {
    pub median: Option<Median>,
    pub min: Option<Price>,
    pub max: Option<Price>,
}

/// The order of prices by amount.
pub open spec fn price_leq() -> spec_fn(Price, Price) -> bool {
    |a: Price, b: Price| a.amount() <= b.amount()
}

/// Whether no price of `s` is followed by a lower one.
pub open spec fn is_ascending(s: Seq<Price>) -> bool {
    forall|i: int, j: int| 0 <= i < j < s.len() ==> s[i].amount() <= s[j].amount()
}

/// The prices of `prices` in ascending order.
pub open spec fn ascending(prices: Seq<Price>) -> Seq<Price> {
    prices.sort_by(price_leq())
}

/// The position half-way through `s`, rounded down.
pub open spec fn middle(s: Seq<Price>) -> int {
    s.len() as int / 2
}

/// The median of prices that stand in ascending order.
pub open spec fn median_of_sorted(s: Seq<Price>) -> Option<Median> {
    if s.len() == 0 {
        None
    } else if s.len() % 2 == 1 {
        Some(Median::Single(s[middle(s)]))
    } else {
        Some(Median::Between(s[middle(s) - 1], s[middle(s)]))
    }
}

/// The summary of prices that stand in ascending order.
pub open spec fn summary_of_sorted(s: Seq<Price>) -> EstimatedPrice {
    EstimatedPrice {
        median: median_of_sorted(s),
        min: if s.len() == 0 {
            None
        } else {
            Some(s.first())
        },
        max: if s.len() == 0 {
            None
        } else {
            Some(s.last())
        },
    }
}

/// The summary of a collection of prices, in whatever order they stand.
pub open spec fn summary_of(prices: Seq<Price>) -> EstimatedPrice {
    summary_of_sorted(ascending(prices))
}

/// The order of prices by amount is a total order.
pub proof fn price_order_is_total()
    ensures
        total_ordering(price_leq()),
{
    assert forall|a: Price, b: Price| #[trigger]
        price_leq()(a, b) && #[trigger] price_leq()(b, a) implies a == b by {
        price_is_its_amount(a, b);
    }
}

/// The prices in ascending order stand in ascending order, and each price
/// stands among them as often as before.
pub proof fn ascending_sorts(prices: Seq<Price>)
    ensures
        is_ascending(ascending(prices)),
        ascending(prices).to_multiset() == prices.to_multiset(),
        ascending(prices).len() == prices.len(),
{
    price_order_is_total();
    prices.lemma_sort_by_ensures(price_leq());
    let sorted = ascending(prices);
    assert forall|i: int, j: int| 0 <= i < j < sorted.len() implies sorted[i].amount()
        <= sorted[j].amount() by {
        assert(price_leq()(sorted[i], sorted[j]));
    }
    sorted.to_multiset_ensures();
    prices.to_multiset_ensures();
}

/// There is one way to put prices in ascending order: a sequence in
/// ascending order that holds each price as often as `prices` does is
/// `ascending(prices)`.
pub proof fn ascending_is_unique(prices: Seq<Price>, sorted: Seq<Price>)
    requires
        is_ascending(sorted),
        sorted.to_multiset() == prices.to_multiset(),
    ensures
        sorted == ascending(prices),
        is_ascending(ascending(prices)),
        ascending(prices).len() == prices.len(),
{
    price_order_is_total();
    prices.lemma_sort_by_ensures(price_leq());
    assert(sorted_by(sorted, price_leq()));
    lemma_sorted_unique(sorted, ascending(prices), price_leq());
    sorted.to_multiset_ensures();
    prices.to_multiset_ensures();
}

/// The median of an odd number of prices in ascending order is the middle
/// one; that of an even number is the average of the two in the middle, so
/// that twice the median is their sum.
pub proof fn median_is_the_midpoint(s: Seq<Price>)
    requires
        is_ascending(s),
        s.len() > 0,
    ensures
        s.len() % 2 == 1 ==> summary_of(s).median == Some(Median::Single(s[middle(s)])),
        s.len() % 2 == 0 ==> summary_of(s).median == Some(
            Median::Between(s[middle(s) - 1], s[middle(s)]),
        ),
        s.len() % 2 == 0 ==> summary_of(s).median->0.twice() == s[middle(s) - 1].amount()
            + s[middle(s)].amount(),
        summary_of(s).min == Some(s.first()),
        summary_of(s).max == Some(s.last()),
{
    ascending_is_unique(s, s);
}

/// The summary of prices does not depend on the order in which they stand.
pub proof fn summary_ignores_order(first: Seq<Price>, second: Seq<Price>)
    requires
        first.to_multiset() == second.to_multiset(),
    ensures
        ascending(first) == ascending(second),
        summary_of(first) == summary_of(second),
{
    ascending_sorts(first);
    ascending_is_unique(second, ascending(first));
}

/// Where there is no price, the median, the least and the greatest are all
/// absent; where there is one, none of them is.
pub proof fn summary_is_absent_only_of_nothing(prices: Seq<Price>)
    ensures
        prices.len() == 0 ==> summary_of(prices) == (EstimatedPrice {
            median: None,
            min: None,
            max: None,
        }),
        prices.len() > 0 ==> summary_of(prices).median is Some && summary_of(prices).min is Some
            && summary_of(prices).max is Some,
{
    price_order_is_total();
    prices.lemma_sort_by_ensures(price_leq());
    prices.to_multiset_ensures();
    ascending(prices).to_multiset_ensures();
}

/// Merges two runs of prices in ascending order into one.
fn merge(left: &Vec<Price>, right: &Vec<Price>) -> (merged: Vec<Price>)
    requires
        is_ascending(left@),
        is_ascending(right@),
    ensures
        is_ascending(merged@),
        merged@.to_multiset() == left@.to_multiset().add(right@.to_multiset()),
{
    let mut merged: Vec<Price> = Vec::new();
    let mut i: usize = 0;
    let mut j: usize = 0;
    proof {
        assert(left@.take(0) + right@.take(0) == merged@);
        lemma_multiset_commutative(left@.take(0), right@.take(0));
    }
    while i < left.len() || j < right.len()
        invariant
            i <= left.len(),
            j <= right.len(),
            is_ascending(left@),
            is_ascending(right@),
            is_ascending(merged@),
            merged@.to_multiset() == left@.take(i as int).to_multiset().add(
                right@.take(j as int).to_multiset(),
            ),
            forall|k: int|
                0 <= k < merged@.len() && i < left.len() ==> merged@[k].amount()
                    <= left@[i as int].amount(),
            forall|k: int|
                0 <= k < merged@.len() && j < right.len() ==> merged@[k].amount()
                    <= right@[j as int].amount(),
        decreases left.len() - i + (right.len() - j),
    {
        let from_left = if i == left.len() {
            false
        } else if j == right.len() {
            true
        } else {
            left[i].micros() <= right[j].micros()
        };
        let ghost before = merged@;
        if from_left {
            let p = left[i];
            proof {
                assert(left@.take(i + 1) == left@.take(i as int).push(p));
                to_multiset_build(left@.take(i as int), p);
                to_multiset_build(before, p);
                assert(left@.take(i as int).to_multiset().insert(p).add(
                    right@.take(j as int).to_multiset(),
                ) == left@.take(i as int).to_multiset().add(
                    right@.take(j as int).to_multiset(),
                ).insert(p));
            }
            merged.push(p);
            i += 1;
        } else {
            let p = right[j];
            proof {
                assert(right@.take(j + 1) == right@.take(j as int).push(p));
                to_multiset_build(right@.take(j as int), p);
                to_multiset_build(before, p);
                assert(left@.take(i as int).to_multiset().add(
                    right@.take(j as int).to_multiset().insert(p),
                ) == left@.take(i as int).to_multiset().add(
                    right@.take(j as int).to_multiset(),
                ).insert(p));
            }
            merged.push(p);
            j += 1;
        }
        assert forall|a: int, b: int| 0 <= a < b < merged@.len() implies merged@[a].amount()
            <= merged@[b].amount() by {
            if b < before.len() {
                assert(merged@[a] == before[a] && merged@[b] == before[b]);
            } else {
                assert(merged@[a] == before[a]);
            }
        }
    }
    proof {
        assert(left@.take(left.len() as int) == left@);
        assert(right@.take(right.len() as int) == right@);
    }
    merged
}

/// The prices of `prices` from `from` up to `to`, in ascending order.
fn sort_range(prices: &Vec<Price>, from: usize, to: usize) -> (sorted: Vec<Price>)
    requires
        from <= to <= prices.len(),
    ensures
        is_ascending(sorted@),
        sorted@.to_multiset() == prices@.subrange(from as int, to as int).to_multiset(),
    decreases to - from,
{
    if to - from <= 1 {
        let mut sorted: Vec<Price> = Vec::new();
        if to - from == 1 {
            sorted.push(prices[from]);
        }
        assert(sorted@ == prices@.subrange(from as int, to as int));
        sorted
    } else {
        let mid = from + (to - from) / 2;
        let left = sort_range(prices, from, mid);
        let right = sort_range(prices, mid, to);
        proof {
            assert(prices@.subrange(from as int, to as int) == prices@.subrange(
                from as int,
                mid as int,
            ) + prices@.subrange(mid as int, to as int));
            lemma_multiset_commutative(
                prices@.subrange(from as int, mid as int),
                prices@.subrange(mid as int, to as int),
            );
        }
        merge(&left, &right)
    }
}

/// The prices of `prices` in ascending order.
pub fn sort_prices(prices: &Vec<Price>) -> (sorted: Vec<Price>)
    ensures
        sorted@ == ascending(prices@),
        is_ascending(sorted@),
        sorted@.len() == prices@.len(),
{
    let sorted = sort_range(prices, 0, prices.len());
    proof {
        assert(prices@.subrange(0, prices.len() as int) == prices@);
        ascending_is_unique(prices@, sorted@);
    }
    sorted
}

/// The median, the least and the greatest of `prices`.
pub fn summarize(prices: &Vec<Price>) -> (summary: EstimatedPrice)
    ensures
        summary == summary_of(prices@),
{
    let sorted = sort_prices(prices);
    let n = sorted.len();
    if n == 0 {
        EstimatedPrice { median: None, min: None, max: None }
    } else {
        let mid = n / 2;
        let median = if n % 2 == 0 {
            Median::Between(sorted[mid - 1], sorted[mid])
        } else {
            Median::Single(sorted[mid])
        };
        EstimatedPrice { median: Some(median), min: Some(sorted[0]), max: Some(sorted[n - 1]) }
    }
}

} // verus!
