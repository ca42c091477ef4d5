//! The report of a run: the span of the data and, for each item, its price
//! distribution, its posts, its trade chances and its frequency, the items
//! ranked by median price.

use crate::aggregate::Aggregator;
use crate::catalog::Item;
use crate::classify::{event_of, Classifier, Event, Row};
use crate::rank::{
    as_positions, is_ranking, positions, precedes, rank_descending, ranking, ranking_exists,
    ranking_is_unique,
};
use crate::rates::{
    chances_of, classify_frequency, frequency_of, nearest_is_bounded, trade_chances, Frequency,
    TradeChance, MONTH_IN_HUNDREDTHS_OF_A_DAY,
};
use crate::span::{span_of, GlobalSpan, Period};
use crate::stats::{names_seen, skipped_in, times_of, totals_of, ItemTotals};
use crate::summary::{summarize, summary_of, EstimatedPrice};
use vstd::prelude::*;

verus! {

/// The numbers of offers and of requests for an item.
#[derive(Clone, Copy, Debug, PartialEq, Eq, Structural)]
pub struct SupplyDemand {
    pub supply_posts: u64,
    pub demand_posts: u64,
}

/// What the report says of one item.
#[derive(Debug)]
pub struct ItemAnalysis {
    pub item: String,
    pub estimated_price: EstimatedPrice,
    pub supply_demand: SupplyDemand,
    pub estimated_trade_chances: TradeChance,
    pub rough_selling_frequency: Frequency,
}

/// What the report says of one item, with the name as a sequence of
/// characters.
pub struct ItemReport {
    pub item: Seq<char>,
    pub estimated_price: EstimatedPrice,
    pub supply_demand: SupplyDemand,
    pub estimated_trade_chances: TradeChance,
    pub rough_selling_frequency: Frequency,
}

impl View for ItemAnalysis {
    type V = ItemReport;

    open spec fn view(&self) -> ItemReport {
        ItemReport {
            item: self.item@,
            estimated_price: self.estimated_price,
            supply_demand: self.supply_demand,
            estimated_trade_chances: self.estimated_trade_chances,
            rough_selling_frequency: self.rough_selling_frequency,
        }
    }
}

/// The report of a run.
#[derive(Debug)]
pub struct AnalysisOutput {
    /// From the earliest to the latest time of the log.
    pub span: GlobalSpan,
    /// The span in words.
    pub period: Period,
    /// The items, ranked by median price, the highest first.
    pub items: Vec<ItemAnalysis>,
    /// The number of rows taken in.
    pub rows: u64,
    /// The number of rows that reported no trade.
    pub skipped: u64,
}

/// The report of a run as mathematical values.
pub struct Report {
    pub span: GlobalSpan,
    pub period: Period,
    pub items: Seq<ItemReport>,
    pub rows: nat,
    pub skipped: nat,
}

impl View for AnalysisOutput {
    type V = Report;

    open spec fn view(&self) -> Report {
        Report {
            span: self.span,
            period: self.period,
            items: self.items@.map_values(|a: ItemAnalysis| a@),
            rows: self.rows as nat,
            skipped: self.skipped as nat,
        }
    }
}

/// What the report says of the item `name` with the statistics `totals`,
/// where the whole log spans `days` whole days.
pub open spec fn item_report(name: Seq<char>, totals: ItemTotals, days: nat) -> ItemReport {
    ItemReport {
        item: name,
        estimated_price: summary_of(totals.prices),
        supply_demand: SupplyDemand {
            supply_posts: totals.supply_posts as u64,
            demand_posts: totals.demand_posts as u64,
        },
        estimated_trade_chances: chances_of(totals.supply_posts, totals.demand_posts),
        rough_selling_frequency: frequency_of(totals.supply_posts + totals.demand_posts, days),
    }
}

/// The key by which an item is ranked: twice its median price, and nothing
/// for an item without a price.
pub open spec fn rank_key(price: EstimatedPrice) -> u128 {
    match price.median {
        Some(median) => median.twice() as u128,
        None => 0,
    }
}

/// What the report says of each item of `log`, in the order in which the
/// items first occur.
pub open spec fn unranked_reports(log: Seq<Event>) -> Seq<ItemReport> {
    names_seen(log).map_values(
        |name: Seq<char>| item_report(name, totals_of(log, name), span_of(times_of(log)).days()),
    )
}

/// The keys by which the items of `log` are ranked, in the order in which
/// the items first occur.
pub open spec fn rank_keys(log: Seq<Event>) -> Seq<u128> {
    unranked_reports(log).map_values(|r: ItemReport| rank_key(r.estimated_price))
}

/// The report that `log` gives.
pub open spec fn report_of(log: Seq<Event>) -> Report {
    let span = span_of(times_of(log));
    Report {
        span,
        period: span.period(),
        items: ranking(rank_keys(log)).map_values(|i: int| unranked_reports(log)[i]),
        rows: log.len(),
        skipped: skipped_in(log),
    }
}

/// The classifications of `rows`, in order.
pub open spec fn events_of(catalog: Seq<Item>, rows: Seq<Row>) -> Seq<Event> {
    rows.map_values(|row: Row| event_of(catalog, row))
}

fn key_of(price: &EstimatedPrice) -> (key: u128)
    ensures
        key == rank_key(*price),
{
    match &price.median {
        Some(median) => median.doubled(),
        None => 0,
    }
}

impl Aggregator {
    /// The report of what has been seen so far.
    pub fn finish(&self) -> (output: AnalysisOutput)
        requires
            self.wf(),
        ensures
            output@ == report_of(self@),
    {
        let ghost log = self@;
        let span = GlobalSpan::of(self.dates());
        let days = span.whole_days();
        let entries = self.items();
        let ghost unranked = unranked_reports(log);
        let ghost keys_spec = rank_keys(log);
        let mut prices: Vec<EstimatedPrice> = Vec::new();
        let mut keys: Vec<u128> = Vec::new();
        let mut k: usize = 0;
        while k < entries.len()
            invariant
                k <= entries@.len(),
                entries@.len() == names_seen(log).len(),
                forall|j: int|
                    0 <= j < entries@.len() ==> {
                        &&& (#[trigger] entries@[j]).name@ == names_seen(log)[j]
                        &&& entries@[j].stats@ == totals_of(log, names_seen(log)[j])
                        &&& entries@[j].stats.wf()
                    },
                unranked == unranked_reports(log),
                keys_spec == rank_keys(log),
                prices@.len() == k,
                keys@.len() == k,
                forall|j: int| 0 <= j < k ==> #[trigger] prices@[j] == unranked[j].estimated_price,
                forall|j: int| 0 <= j < k ==> #[trigger] keys@[j] == keys_spec[j],
            decreases entries.len() - k,
        {
            let price = summarize(&entries[k].stats.prices);
            keys.push(key_of(&price));
            prices.push(price);
            k += 1;
        }
        assert(keys@ == keys_spec);
        let order = rank_descending(&keys);
        let mut items: Vec<ItemAnalysis> = Vec::new();
        let mut r: usize = 0;
        while r < order.len()
            invariant
                r <= order@.len(),
                order@.len() == entries@.len(),
                entries@.len() == names_seen(log).len(),
                forall|j: int|
                    0 <= j < entries@.len() ==> {
                        &&& (#[trigger] entries@[j]).name@ == names_seen(log)[j]
                        &&& entries@[j].stats@ == totals_of(log, names_seen(log)[j])
                        &&& entries@[j].stats.wf()
                    },
                unranked == unranked_reports(log),
                span == span_of(times_of(log)),
                days == span.days(),
                prices@.len() == entries@.len(),
                forall|j: int|
                    0 <= j < prices@.len() ==> #[trigger] prices@[j] == unranked[j].estimated_price,
                forall|j: int| 0 <= j < order@.len() ==> order@[j] < entries@.len(),
                items@.len() == r,
                forall|j: int| 0 <= j < r ==> (#[trigger] items@[j])@ == unranked[order@[j] as int],
            decreases order.len() - r,
        {
            let at = order[r];
            let entry = &entries[at];
            let stats = &entry.stats;
            items.push(
                ItemAnalysis {
                    item: entry.name.clone(),
                    estimated_price: prices[at],
                    supply_demand: SupplyDemand {
                        supply_posts: stats.supply_posts,
                        demand_posts: stats.demand_posts,
                    },
                    estimated_trade_chances: trade_chances(stats.supply_posts, stats.demand_posts),
                    rough_selling_frequency: classify_frequency(stats.decided_posts(), days),
                },
            );
            r += 1;
        }
        let output = AnalysisOutput {
            span,
            period: span.display_period(),
            items,
            rows: self.rows(),
            skipped: self.skipped(),
        };
        proof {
            let ranked = ranking(keys_spec).map_values(|i: int| unranked[i]);
            assert(as_positions(order@) == ranking(keys_spec));
            assert(output@.items =~= ranked);
        }
        output
    }
}

/// The key of the item that stands at place `i` of the report of `log`.
pub open spec fn key_at(log: Seq<Event>, i: int) -> u128 {
    rank_key(report_of(log).items[i].estimated_price)
}

/// The position, in the order of first occurrence, of the item that stands
/// at place `i` of the report of `log`.
pub open spec fn origin_of(log: Seq<Event>, i: int) -> int {
    ranking(rank_keys(log))[i]
}

/// The items of a report stand in the order of their median prices, the
/// highest first, and items of equal median in the order in which they
/// first occurred in the log; an item without a price ranks as one of
/// median zero. Each item of the log is reported once.
pub proof fn report_is_ranked(log: Seq<Event>)
    ensures
        is_ranking(rank_keys(log), ranking(rank_keys(log))),
        report_of(log).items.len() == names_seen(log).len(),
        forall|i: int|
            0 <= i < names_seen(log).len() ==> 0 <= #[trigger] origin_of(log, i) < names_seen(
                log,
            ).len(),
        forall|i: int|
            0 <= i < names_seen(log).len() ==> #[trigger] report_of(log).items[i]
                == unranked_reports(log)[origin_of(log, i)],
        forall|i: int, j: int|
            0 <= i < j < names_seen(log).len() ==> #[trigger] key_at(log, i) > #[trigger] key_at(
                log,
                j,
            ) || (key_at(log, i) == key_at(log, j) && origin_of(log, i) < origin_of(log, j)),
{
    let keys = rank_keys(log);
    let order = ranking(keys);
    ranking_exists(keys);
    ranking_is_unique(keys, order);
    assert forall|i: int, j: int| 0 <= i < j < names_seen(log).len() implies #[trigger] key_at(
        log,
        i,
    ) > #[trigger] key_at(log, j) || (key_at(log, i) == key_at(log, j) && origin_of(log, i)
        < origin_of(log, j)) by {
        assert(precedes(keys, order[i], order[j]));
        if order[i] == order[j] {
            order.to_multiset_ensures();
            positions(keys).to_multiset_ensures();
            assert(positions(keys).no_duplicates());
            positions(keys).lemma_multiset_has_no_duplicates();
            order.lemma_multiset_has_no_duplicates_conv();
        }
    }
}

/// A log without a single time has no span: no earliest and no latest time,
/// no seconds, days, weeks or months, and "no data" for its period. An item
/// of a log that spans no whole day has no frequency but "not observed".
pub proof fn no_times_no_span(log: Seq<Event>)
    ensures
        times_of(log).len() == 0 ==> {
            &&& report_of(log).span == (GlobalSpan { earliest: None, latest: None, seconds: 0 })
            &&& report_of(log).period == Period::NoData
            &&& report_of(log).span.days() == 0
            &&& report_of(log).span.weeks() == 0
            &&& report_of(log).span.months_in_hundredths() == 0
        },
        report_of(log).span.days() == 0 ==> forall|i: int|
            0 <= i < report_of(log).items.len() ==> (#[trigger] report_of(
                log,
            ).items[i]).rough_selling_frequency == Frequency::NotObserved,
{
    report_is_ranked(log);
    nearest_is_bounded(0, MONTH_IN_HUNDREDTHS_OF_A_DAY as nat, 0);
}

/// The report is a function of the rows and the catalog: whatever is drawn
/// up from the same rows with the same catalog is the same report.
pub proof fn same_rows_same_report(
    catalog: Seq<Item>,
    rows: Seq<Row>,
    first: Report,
    second: Report,
)
    requires
        first == report_of(events_of(catalog, rows)),
        second == report_of(events_of(catalog, rows)),
    ensures
        first == second,
{
}

/// Runs the analysis over the rows of a log: each row is classified and
/// taken in, in order, and the report is drawn up at the end.
pub fn run_trade_analysis(classifier: &Classifier, rows: &Vec<Row>) -> (output: AnalysisOutput)
    ensures
        output@ == report_of(events_of(classifier@, rows@)),
{
    let mut aggregator = Aggregator::new();
    let mut i: usize = 0;
    while i < rows.len()
        invariant
            i <= rows.len(),
            aggregator.wf(),
            aggregator@ == events_of(classifier@, rows@.take(i as int)),
        decreases rows.len() - i,
    {
        let classification = classifier.classify_row(&rows[i]);
        proof {
            assert(rows@.take(i + 1) == rows@.take(i as int).push(rows@[i as int]));
        }
        aggregator.absorb(classification);
        i += 1;
    }
    assert(rows@.take(rows.len() as int) == rows@);
    aggregator.finish()
}

} // verus!
