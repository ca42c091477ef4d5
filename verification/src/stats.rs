//! The running statistics of one item, and what a log of classifications
//! gives for each item.

use crate::classify::{Event, Intent};
use crate::price::Price;
use crate::timestamp::Timestamp;
use vstd::prelude::*;

verus! {

/// What has been observed of one item: its prices and the times at which
/// they were posted, in the order of the log, and how many of the posts were
/// offers and how many were requests.
#[derive(Debug)]
pub struct ItemStats {
    pub prices: Vec<Price>,
    pub supply_posts: u64,
    pub demand_posts: u64,
    pub trade_dates: Vec<Timestamp>,
}

/// The statistics of one item as mathematical values.
pub struct ItemTotals {
    pub prices: Seq<Price>,
    pub supply_posts: nat,
    pub demand_posts: nat,
    pub trade_dates: Seq<Timestamp>,
}

impl View for ItemStats {
    type V = ItemTotals;

    open spec fn view(&self) -> ItemTotals {
        ItemTotals {
            prices: self.prices@,
            supply_posts: self.supply_posts as nat,
            demand_posts: self.demand_posts as nat,
            trade_dates: self.trade_dates@,
        }
    }
}

/// The statistics of an item of which nothing has been observed.
pub open spec fn no_trades() -> ItemTotals {
    ItemTotals {
        prices: Seq::empty(),
        supply_posts: 0,
        demand_posts: 0,
        trade_dates: Seq::empty(),
    }
}

/// The statistics `totals` with one more trade: its price and time are
/// appended; an offer or a request is counted, a post that says neither is
/// not.
pub open spec fn with_trade(
    totals: ItemTotals,
    price: Price,
    intent: Intent,
    timestamp: Timestamp,
) -> ItemTotals {
    ItemTotals {
        prices: totals.prices.push(price),
        supply_posts: if intent == Intent::Supply {
            totals.supply_posts + 1
        } else {
            totals.supply_posts
        },
        demand_posts: if intent == Intent::Demand {
            totals.demand_posts + 1
        } else {
            totals.demand_posts
        },
        trade_dates: totals.trade_dates.push(timestamp),
    }
}

/// The statistics that the trades of `log` give for the item `name`.
pub open spec fn totals_of(log: Seq<Event>, name: Seq<char>) -> ItemTotals
    decreases log.len(),
{
    if log.len() == 0 {
        no_trades()
    } else {
        let before = totals_of(log.drop_last(), name);
        match log.last().outcome {
            Ok(trade) => if trade.item == name {
                with_trade(before, trade.price, trade.intent, trade.timestamp)
            } else {
                before
            },
            Err(_) => before,
        }
    }
}

/// The names of the items of which `log` holds a trade, each once, in the
/// order in which they first occur.
pub open spec fn names_seen(log: Seq<Event>) -> Seq<Seq<char>>
    decreases log.len(),
{
    if log.len() == 0 {
        Seq::empty()
    } else {
        let before = names_seen(log.drop_last());
        match log.last().outcome {
            Ok(trade) => if before.contains(trade.item) {
                before
            } else {
                before.push(trade.item)
            },
            Err(_) => before,
        }
    }
}

/// The times that the events of `log` carry, in order.
pub open spec fn times_of(log: Seq<Event>) -> Seq<Timestamp>
    decreases log.len(),
{
    if log.len() == 0 {
        Seq::empty()
    } else {
        let before = times_of(log.drop_last());
        match log.last().timestamp {
            Some(t) => before.push(t),
            None => before,
        }
    }
}

/// The number of events of `log` that report no trade.
pub open spec fn skipped_in(log: Seq<Event>) -> nat
    decreases log.len(),
{
    if log.len() == 0 {
        0
    } else if log.last().outcome is Err {
        skipped_in(log.drop_last()) + 1
    } else {
        skipped_in(log.drop_last())
    }
}

/// The number of trades of `log` that are of the item `name`.
pub open spec fn trades_in(log: Seq<Event>, name: Seq<char>) -> nat
    decreases log.len(),
{
    if log.len() == 0 {
        0
    } else if log.last().outcome matches Ok(trade) && trade.item == name {
        trades_in(log.drop_last(), name) + 1
    } else {
        trades_in(log.drop_last(), name)
    }
}

/// An item has as many prices, and as many times, as trades were routed to
/// it; its offers and requests together are no more than that.
pub proof fn totals_count_the_trades(log: Seq<Event>, name: Seq<char>)
    ensures
        totals_of(log, name).prices.len() == trades_in(log, name),
        totals_of(log, name).trade_dates.len() == trades_in(log, name),
        totals_of(log, name).supply_posts + totals_of(log, name).demand_posts <= trades_in(
            log,
            name,
        ),
        trades_in(log, name) + skipped_in(log) <= log.len(),
    decreases log.len(),
{
    if log.len() > 0 {
        totals_count_the_trades(log.drop_last(), name);
    }
}

/// An item is listed exactly if a trade was routed to it, and is listed
/// once.
pub proof fn names_are_those_traded(log: Seq<Event>, name: Seq<char>)
    ensures
        names_seen(log).contains(name) <==> trades_in(log, name) > 0,
        names_seen(log).no_duplicates(),
        !names_seen(log).contains(name) ==> totals_of(log, name) == no_trades(),
    decreases log.len(),
{
    if log.len() > 0 {
        let before = names_seen(log.drop_last());
        names_are_those_traded(log.drop_last(), name);
        match log.last().outcome {
            Ok(trade) => {
                names_are_those_traded(log.drop_last(), trade.item);
                if !before.contains(trade.item) {
                    let after = before.push(trade.item);
                    assert(after.last() == trade.item);
                    assert forall|i: int| 0 <= i < before.len() implies after[i] == before[i] by {}
                    if before.contains(name) {
                        let i = choose|i: int| 0 <= i < before.len() && before[i] == name;
                        assert(after[i] == name);
                    }
                }
            },
            Err(_) => {},
        }
    }
}

/// A row that reports no trade is counted as skipped and changes the
/// statistics of no item.
pub proof fn skipped_rows_leave_no_trace(log: Seq<Event>, event: Event, name: Seq<char>)
    requires
        event.outcome is Err,
    ensures
        totals_of(log.push(event), name) == totals_of(log, name),
        names_seen(log.push(event)) == names_seen(log),
        skipped_in(log.push(event)) == skipped_in(log) + 1,
{
    assert(log.push(event).drop_last() == log);
}

impl ItemStats {
    /// Whether there is a time for every price, and no more offers and
    /// requests than prices.
    pub open spec fn wf(&self) -> bool {
        &&& self.prices@.len() == self.trade_dates@.len()
        &&& self.supply_posts + self.demand_posts <= self.prices@.len()
    }

    /// The statistics of an item of which nothing has been observed yet.
    pub fn new() -> (stats: ItemStats)
        ensures
            stats.wf(),
            stats@ == no_trades(),
    {
        ItemStats { prices: Vec::new(), supply_posts: 0, demand_posts: 0, trade_dates: Vec::new() }
    }

    /// Adds one trade of the item.
    pub fn record(&mut self, price: Price, intent: Intent, timestamp: Timestamp)
        requires
            old(self).wf(),
        ensures
            final(self).wf(),
            final(self)@ == with_trade(old(self)@, price, intent, timestamp),
    {
        self.prices.push(price);
        self.trade_dates.push(timestamp);
        let trades = self.prices.len();
        assert(old(self).supply_posts + old(self).demand_posts < trades <= u64::MAX);
        match intent {
            Intent::Supply => {
                self.supply_posts = self.supply_posts + 1;
            },
            Intent::Demand => {
                self.demand_posts = self.demand_posts + 1;
            },
            Intent::Unknown => {},
        }
    }

    /// The number of posts that say what they want: offers and requests.
    pub fn decided_posts(&self) -> (posts: u64)
        requires
            self.wf(),
        ensures
            posts == self.supply_posts + self.demand_posts,
    {
        let trades = self.prices.len();
        assert(self.supply_posts + self.demand_posts <= trades <= u64::MAX);
        self.supply_posts + self.demand_posts
    }
}

} // verus!
