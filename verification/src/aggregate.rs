//! The aggregator: the one object that holds what a run has seen so far.

use crate::classify::{Classification, Event};
use crate::stats::{
    names_are_those_traded, names_seen, skipped_in, times_of, totals_count_the_trades, totals_of,
    ItemStats,
};
use crate::timestamp::Timestamp;
use vstd::prelude::*;

verus! {

/// An item and what has been observed of it.
#[derive(Debug)]
pub struct ItemEntry {
    pub name: String,
    pub stats: ItemStats,
}

/// What a run has seen so far: the statistics of each item, in the order in
/// which the items first occurred; the times of all records that have one;
/// and how many rows were taken in, and how many of them were skipped.
///
/// Its view is the log of the classifications that it has taken in.
pub struct Aggregator {
    items: Vec<ItemEntry>,
    dates: Vec<Timestamp>,
    rows: u64,
    skipped: u64,
    log: Ghost<Seq<Event>>,
}

impl View for Aggregator {
    type V = Seq<Event>;

    closed spec fn view(&self) -> Seq<Event> {
        self.log@
    }
}

impl Aggregator {
    /// Whether what is held is what the log gives.
    pub closed spec fn wf(&self) -> bool {
        &&& self.items@.len() == names_seen(self@).len()
        &&& forall|k: int|
            0 <= k < self.items@.len() ==> {
                &&& (#[trigger] self.items@[k]).name@ == names_seen(self@)[k]
                &&& self.items@[k].stats@ == totals_of(self@, names_seen(self@)[k])
                &&& self.items@[k].stats.wf()
            }
        &&& self.dates@ == times_of(self@)
        &&& self.rows == self@.len()
        &&& self.skipped == skipped_in(self@)
    }

    /// An aggregator that has seen nothing.
    pub fn new() -> (aggregator: Aggregator)
        ensures
            aggregator.wf(),
            aggregator@ == Seq::<Event>::empty(),
    {
        Aggregator {
            items: Vec::new(),
            dates: Vec::new(),
            rows: 0,
            skipped: 0,
            log: Ghost(Seq::empty()),
        }
    }

    /// The items and their statistics, in the order in which the items first
    /// occurred.
    pub fn items(&self) -> (items: &Vec<ItemEntry>)
        requires
            self.wf(),
        ensures
            items@.len() == names_seen(self@).len(),
            forall|k: int|
                0 <= k < items@.len() ==> {
                    &&& (#[trigger] items@[k]).name@ == names_seen(self@)[k]
                    &&& items@[k].stats@ == totals_of(self@, names_seen(self@)[k])
                    &&& items@[k].stats.wf()
                },
    {
        &self.items
    }

    /// The times of all records that have one, in the order of the log.
    pub fn dates(&self) -> (dates: &Vec<Timestamp>)
        requires
            self.wf(),
        ensures
            dates@ == times_of(self@),
    {
        &self.dates
    }

    /// The number of rows taken in.
    pub fn rows(&self) -> (rows: u64)
        requires
            self.wf(),
        ensures
            rows == self@.len(),
    {
        self.rows
    }

    /// The number of rows that reported no trade.
    pub fn skipped(&self) -> (skipped: u64)
        requires
            self.wf(),
        ensures
            skipped == skipped_in(self@),
    {
        self.skipped
    }

    /// The position of the item `name` among the items, if it has occurred.
    fn position_of(&self, name: &String) -> (found: Option<usize>)
        requires
            self.wf(),
        ensures
            found matches Some(k) ==> k < self.items@.len() && names_seen(self@)[k as int]
                == name@,
            found is None ==> !names_seen(self@).contains(name@),
    {
        let mut k: usize = 0;
        while k < self.items.len()
            invariant
                self.wf(),
                k <= self.items@.len(),
                forall|j: int| 0 <= j < k ==> names_seen(self@)[j] != name@,
            decreases self.items.len() - k,
        {
            if self.items[k].name == *name {
                return Some(k);
            }
            k += 1;
        }
        None
    }

    /// Takes in the classification of one more row. Its time, if it has
    /// one, counts for the span of the data; its trade, if it reports one,
    /// is added to the statistics of its item, which is listed from then on;
    /// otherwise the row is counted as skipped.
    pub fn absorb(&mut self, classification: Classification)
        requires
            old(self).wf(),
            old(self)@.len() < u64::MAX,
        ensures
            final(self).wf(),
            final(self)@ == old(self)@.push(classification@),
    {
        let ghost before = self@;
        let ghost event = classification@;
        let ghost after = before.push(event);
        proof {
            assert(after.drop_last() == before);
            assert(after.last() == event);
            totals_count_the_trades(before, Seq::empty());
        }
        let found = match &classification.outcome {
            Ok(trade) => self.position_of(&trade.item),
            Err(_) => None,
        };
        if let Some(t) = classification.timestamp {
            self.dates.push(t);
        }
        self.rows = self.rows + 1;
        match classification.outcome {
            Err(_) => {
                self.skipped = self.skipped + 1;
                self.log = Ghost(after);
            },
            Ok(trade) => {
                let ghost name = trade.item@;
                proof {
                    names_are_those_traded(before, name);
                }
                match found {
                    Some(k) => {
                        let entry = &mut self.items[k];
                        entry.stats.record(trade.price, trade.intent, trade.timestamp);
                        self.log = Ghost(after);
                        proof {
                            assert(names_seen(before).contains(name));
                            assert(names_seen(after) == names_seen(before));
                            assert forall|j: int| 0 <= j < self.items@.len() implies {
                                &&& (#[trigger] self.items@[j]).name@ == names_seen(after)[j]
                                &&& self.items@[j].stats@ == totals_of(
                                    after,
                                    names_seen(after)[j],
                                )
                                &&& self.items@[j].stats.wf()
                            } by {
                                if j != k {
                                    names_are_those_traded(before, names_seen(before)[j]);
                                    assert(names_seen(before)[j] != name);
                                }
                            }
                        }
                    },
                    None => {
                        let mut stats = ItemStats::new();
                        stats.record(trade.price, trade.intent, trade.timestamp);
                        self.items.push(ItemEntry { name: trade.item, stats });
                        self.log = Ghost(after);
                        proof {
                            assert(names_seen(after) == names_seen(before).push(name));
                            assert forall|j: int| 0 <= j < self.items@.len() implies {
                                &&& (#[trigger] self.items@[j]).name@ == names_seen(after)[j]
                                &&& self.items@[j].stats@ == totals_of(
                                    after,
                                    names_seen(after)[j],
                                )
                                &&& self.items@[j].stats.wf()
                            } by {
                                if j < names_seen(before).len() {
                                    assert(names_seen(before).contains(names_seen(before)[j]));
                                }
                            }
                        }
                    },
                }
            },
        }
    }
}

} // verus!
