//! What the order of the rows does not change: the statistics of an item
//! but for the order in which its prices stand, which are sorted before they
//! are used; the times of the log; and the count of the skipped rows.

use crate::analysis::{item_report, ItemReport};
use crate::classify::{Event, Intent};
use crate::price::Price;
use crate::span::{extremes_are_unique, is_earliest, is_latest, span_of};
use crate::stats::{skipped_in, times_of, totals_of};
use crate::summary::summary_ignores_order;
use crate::timestamp::Timestamp;
use vstd::multiset::Multiset;
use vstd::prelude::*;
use vstd::seq_lib::{to_multiset_build, to_multiset_remove};

verus! {

/// What a log gives for one item and for the span, with the order left out.
pub struct Tally {
    pub prices: Multiset<Price>,
    pub trade_dates: Multiset<Timestamp>,
    pub supply_posts: nat,
    pub demand_posts: nat,
    pub times: Multiset<Timestamp>,
    pub skipped: nat,
}

/// The tally of `log` for the item `name`.
pub open spec fn tally_of(log: Seq<Event>, name: Seq<char>) -> Tally {
    Tally {
        prices: totals_of(log, name).prices.to_multiset(),
        trade_dates: totals_of(log, name).trade_dates.to_multiset(),
        supply_posts: totals_of(log, name).supply_posts,
        demand_posts: totals_of(log, name).demand_posts,
        times: times_of(log).to_multiset(),
        skipped: skipped_in(log),
    }
}

/// The tally `tally` with one more event.
pub open spec fn tally_with(tally: Tally, event: Event, name: Seq<char>) -> Tally {
    let counts = event.outcome matches Ok(trade) && trade.item == name;
    Tally {
        prices: if counts {
            tally.prices.insert(event.outcome->Ok_0.price)
        } else {
            tally.prices
        },
        trade_dates: if counts {
            tally.trade_dates.insert(event.outcome->Ok_0.timestamp)
        } else {
            tally.trade_dates
        },
        supply_posts: if counts && event.outcome->Ok_0.intent == Intent::Supply {
            tally.supply_posts + 1
        } else {
            tally.supply_posts
        },
        demand_posts: if counts && event.outcome->Ok_0.intent == Intent::Demand {
            tally.demand_posts + 1
        } else {
            tally.demand_posts
        },
        times: match event.timestamp {
            Some(t) => tally.times.insert(t),
            None => tally.times,
        },
        skipped: if event.outcome is Err {
            tally.skipped + 1
        } else {
            tally.skipped
        },
    }
}

/// The tally of a log with one more event at its end.
proof fn lemma_tally_push(log: Seq<Event>, event: Event, name: Seq<char>)
    ensures
        tally_of(log.push(event), name) == tally_with(tally_of(log, name), event, name),
{
    let longer = log.push(event);
    assert(longer.drop_last() == log);
    assert(longer.last() == event);
    if let Ok(trade) = event.outcome {
        if trade.item == name {
            to_multiset_build(totals_of(log, name).prices, trade.price);
            to_multiset_build(totals_of(log, name).trade_dates, trade.timestamp);
        }
    }
    if let Some(t) = event.timestamp {
        to_multiset_build(times_of(log), t);
    }
    let a = tally_of(longer, name);
    let b = tally_with(tally_of(log, name), event, name);
    assert(a.prices =~= b.prices);
    assert(a.trade_dates =~= b.trade_dates);
    assert(a.times =~= b.times);
}

/// Two events may be added to a tally in either order.
proof fn lemma_tally_with_commutes(tally: Tally, first: Event, second: Event, name: Seq<char>)
    ensures
        tally_with(tally_with(tally, first, name), second, name) == tally_with(
            tally_with(tally, second, name),
            first,
            name,
        ),
{
    let a = tally_with(tally_with(tally, first, name), second, name);
    let b = tally_with(tally_with(tally, second, name), first, name);
    assert(a.prices =~= b.prices);
    assert(a.trade_dates =~= b.trade_dates);
    assert(a.times =~= b.times);
}

/// The tally of a log with one more event, wherever in the log it stands.
proof fn lemma_tally_insert(log: Seq<Event>, i: int, event: Event, name: Seq<char>)
    requires
        0 <= i <= log.len(),
    ensures
        tally_of(log.insert(i, event), name) == tally_with(tally_of(log, name), event, name),
    decreases log.len() - i,
{
    if i == log.len() {
        assert(log.insert(i, event) == log.push(event));
        lemma_tally_push(log, event, name);
    } else {
        let front = log.drop_last();
        let last = log.last();
        assert(log.insert(i, event) == front.insert(i, event).push(last));
        assert(log == front.push(last));
        lemma_tally_insert(front, i, event, name);
        lemma_tally_push(front.insert(i, event), last, name);
        lemma_tally_push(front, last, name);
        lemma_tally_with_commutes(tally_of(front, name), event, last, name);
    }
}

/// Two logs that hold the same events, each as often, in whatever order,
/// have the same tally.
pub proof fn tally_ignores_order(first: Seq<Event>, second: Seq<Event>, name: Seq<char>)
    requires
        first.to_multiset() == second.to_multiset(),
    ensures
        tally_of(first, name) == tally_of(second, name),
        first.len() == second.len(),
    decreases first.len(),
{
    first.to_multiset_ensures();
    second.to_multiset_ensures();
    if first.len() == 0 {
        assert(second.len() == 0);
        assert(first == second);
    } else {
        let event = first.last();
        let front = first.drop_last();
        assert(first == front.push(event));
        to_multiset_build(front, event);
        assert(second.to_multiset().count(event) > 0);
        assert(second.contains(event));
        let i = choose|i: int| 0 <= i < second.len() && second[i] == event;
        let rest = second.remove(i);
        to_multiset_remove(second, i);
        assert(front.to_multiset() =~= rest.to_multiset());
        tally_ignores_order(front, rest, name);
        assert(second == rest.insert(i, event));
        lemma_tally_insert(rest, i, event, name);
        lemma_tally_push(front, event, name);
    }
}

/// The span of times does not depend on their order.
pub proof fn span_ignores_order(first: Seq<Timestamp>, second: Seq<Timestamp>)
    requires
        first.to_multiset() == second.to_multiset(),
    ensures
        span_of(first) == span_of(second),
{
    first.to_multiset_ensures();
    second.to_multiset_ensures();
    if first.len() > 0 {
        let early = span_of(first).earliest->0;
        let late = span_of(first).latest->0;
        lemma_extremes_exist(first);
        lemma_extremes_exist(second);
        assert(is_earliest(second, early)) by {
            assert(second.to_multiset().count(early) > 0);
            assert forall|i: int| 0 <= i < second.len() implies early.at_or_before(
                #[trigger] second[i],
            ) by {
                assert(first.to_multiset().count(second[i]) > 0);
                let j = choose|j: int| 0 <= j < first.len() && first[j] == second[i];
                assert(early.at_or_before(first[j]));
            }
        }
        assert(is_latest(second, late)) by {
            assert(second.to_multiset().count(late) > 0);
            assert forall|i: int| 0 <= i < second.len() implies (#[trigger] second[i]).at_or_before(
                late,
            ) by {
                assert(first.to_multiset().count(second[i]) > 0);
                let j = choose|j: int| 0 <= j < first.len() && first[j] == second[i];
                assert(first[j].at_or_before(late));
            }
        }
        extremes_are_unique(second, early, span_of(second).earliest->0);
        extremes_are_unique(second, late, span_of(second).latest->0);
    }
}

/// Among times, if there are any, one is the earliest and one the latest.
proof fn lemma_extremes_exist(times: Seq<Timestamp>)
    requires
        times.len() > 0,
    ensures
        is_earliest(times, span_of(times).earliest->0),
        is_latest(times, span_of(times).latest->0),
    decreases times.len(),
{
    if times.len() == 1 {
        assert(is_earliest(times, times[0]));
        assert(is_latest(times, times[0]));
    } else {
        let front = times.drop_last();
        let last = times.last();
        lemma_extremes_exist(front);
        let early = span_of(front).earliest->0;
        let late = span_of(front).latest->0;
        let i = choose|i: int| 0 <= i < front.len() && front[i] == early;
        let j = choose|j: int| 0 <= j < front.len() && front[j] == late;
        assert(times[i] == early && times[j] == late);
        assert forall|k: int| 0 <= k < front.len() implies times[k] == front[k] by {}
        let new_early = if early.at_or_before(last) {
            early
        } else {
            last
        };
        let new_late = if last.at_or_before(late) {
            late
        } else {
            last
        };
        assert(is_earliest(times, new_early)) by {
            assert forall|k: int| 0 <= k < times.len() implies new_early.at_or_before(
                #[trigger] times[k],
            ) by {
                if k < front.len() {
                    assert(early.at_or_before(front[k]));
                }
            }
        }
        assert(is_latest(times, new_late)) by {
            assert forall|k: int| 0 <= k < times.len() implies (#[trigger] times[k]).at_or_before(
                new_late,
            ) by {
                if k < front.len() {
                    assert(front[k].at_or_before(late));
                }
            }
        }
    }
}

/// What the report says of an item, what it says of the span, and how many
/// rows it counts as skipped, do not depend on the order in which the rows
/// arrive.
pub proof fn report_ignores_order(first: Seq<Event>, second: Seq<Event>, name: Seq<char>)
    requires
        first.to_multiset() == second.to_multiset(),
    ensures
        span_of(times_of(first)) == span_of(times_of(second)),
        skipped_in(first) == skipped_in(second),
        first.len() == second.len(),
        reported(first, name) == reported(second, name),
{
    tally_ignores_order(first, second, name);
    span_ignores_order(times_of(first), times_of(second));
    summary_ignores_order(totals_of(first, name).prices, totals_of(second, name).prices);
}

/// What the report of `log` says of the item `name`.
pub open spec fn reported(log: Seq<Event>, name: Seq<char>) -> ItemReport {
    item_report(name, totals_of(log, name), span_of(times_of(log)).days())
}

} // verus!
