use trade_analysis::aggregate::Aggregator;
use trade_analysis::analysis::{run_trade_analysis, AnalysisOutput, SupplyDemand};
use trade_analysis::catalog::{Catalog, EntrySource};
use trade_analysis::classify::{
    Classification, ClassifiedTrade, Classifier, Intent, Row, SkipReason, TradeRecord,
};
use trade_analysis::price::Price;
use trade_analysis::rates::{Frequency, TradeChance};
use trade_analysis::span::{Period, GlobalSpan};
use trade_analysis::summary::{EstimatedPrice, Median};
use trade_analysis::timestamp::Timestamp;

fn source(name: &str, patterns: &[&str]) -> EntrySource {
    EntrySource {
        name: name.to_string(),
        patterns: patterns.iter().map(|p| p.to_string()).collect(),
    }
}

fn classifier() -> Classifier {
    let table = vec![
        source("Widget", &["widget"]),
        source("Gadget", &["gadget"]),
        source("Sprocket", &["sprocket"]),
    ];
    Classifier::new(Catalog::compile(&table).unwrap()).unwrap()
}

fn row(date: &str, content: &str) -> Row {
    Row::Record(TradeRecord {
        author_id: 7,
        author: "trader".to_string(),
        date: date.to_string(),
        content: Some(content.to_string()),
        attachments: None,
        reactions: None,
    })
}

fn units(n: u128) -> Price {
    Price::from_micros(n * 1_000_000).unwrap()
}

fn at(text: &str) -> Timestamp {
    Timestamp::parse(text).unwrap()
}

fn item_names(output: &AnalysisOutput) -> Vec<&str> {
    output.items.iter().map(|i| i.item.as_str()).collect()
}

fn three_rows() -> Vec<Row> {
    vec![
        row("2024-01-01T10:00:00Z", "selling Widget for 50"),
        row("2024-01-01T11:00:00Z", "wtb Widget $75"),
        row("not a date", "selling Widget for 60"),
    ]
}

#[test]
fn two_trades_and_an_unreadable_date() {
    let c = classifier();
    let mut aggregator = Aggregator::new();
    for r in three_rows().iter() {
        aggregator.absorb(c.classify_row(r));
    }
    assert_eq!(aggregator.rows(), 3);
    assert_eq!(aggregator.skipped(), 1);
    assert_eq!(aggregator.items().len(), 1);
    let widget = &aggregator.items()[0];
    assert_eq!(widget.name, "Widget");
    assert_eq!(widget.stats.prices, vec![units(50), units(75)]);
    assert_eq!(widget.stats.supply_posts, 1);
    assert_eq!(widget.stats.demand_posts, 1);
    assert_eq!(
        widget.stats.trade_dates,
        vec![at("2024-01-01T10:00:00Z"), at("2024-01-01T11:00:00Z")]
    );
    assert_eq!(
        aggregator.dates(),
        &vec![at("2024-01-01T10:00:00Z"), at("2024-01-01T11:00:00Z")]
    );

    let output = aggregator.finish();
    assert_eq!(output.rows, 3);
    assert_eq!(output.skipped, 1);
    assert_eq!(output.items.len(), 1);
    let item = &output.items[0];
    assert_eq!(item.item, "Widget");
    assert_eq!(item.estimated_price.median, Some(Median::Between(units(50), units(75))));
    assert_eq!(item.estimated_price.median.unwrap().doubled() as f64 / 2.0 / 1e6, 62.5);
    assert_eq!(item.estimated_price.min, Some(units(50)));
    assert_eq!(item.estimated_price.max, Some(units(75)));
    assert_eq!(item.supply_demand, SupplyDemand { supply_posts: 1, demand_posts: 1 });
    assert_eq!(
        item.estimated_trade_chances,
        TradeChance { chance_to_buy: 5_000, chance_to_sell: 5_000 }
    );
    assert_eq!(item.rough_selling_frequency, Frequency::NotObserved);
    assert_eq!(output.span.seconds, 3_600);
    assert_eq!(output.period, Period::Days { days: 0 });
}

#[test]
fn the_whole_run_gives_what_row_by_row_gives() {
    let c = classifier();
    let output = run_trade_analysis(&c, &three_rows());
    assert_eq!(output.rows, 3);
    assert_eq!(output.skipped, 1);
    assert_eq!(item_names(&output), vec!["Widget"]);
    assert_eq!(
        output.items[0].estimated_price,
        EstimatedPrice {
            median: Some(Median::Between(units(50), units(75))),
            min: Some(units(50)),
            max: Some(units(75)),
        }
    );
    assert_eq!(output.span.earliest, Some(at("2024-01-01T10:00:00Z")));
    assert_eq!(output.span.latest, Some(at("2024-01-01T11:00:00Z")));
}

#[test]
fn running_twice_gives_the_same_report() {
    let c = classifier();
    let rows = vec![
        row("2024-01-01T10:00:00Z", "selling widget 50"),
        row("2024-02-01T10:00:00Z", "buying gadget 50"),
        row("2024-03-01T10:00:00Z", "sprocket 70"),
        row("2024-03-05T10:00:00Z", "wts gadget 50"),
        Row::Malformed,
    ];
    let first = format!("{:?}", run_trade_analysis(&c, &rows));
    let second = format!("{:?}", run_trade_analysis(&c, &rows));
    assert_eq!(first, second);
    let again = format!("{:?}", run_trade_analysis(&classifier(), &rows));
    assert_eq!(first, again);
}

#[test]
fn a_row_that_names_no_item_is_skipped_and_leaves_no_statistics() {
    let c = classifier();
    let mut aggregator = Aggregator::new();
    aggregator.absorb(c.classify_row(&row("2024-01-01T10:00:00Z", "selling widget 50")));
    let got = c.classify_row(&row("2024-01-02T10:00:00Z", "selling my old bike for 300"));
    assert_eq!(got.outcome.as_ref().err(), Some(&SkipReason::NoItemMatch));
    aggregator.absorb(got);
    assert_eq!(aggregator.rows(), 2);
    assert_eq!(aggregator.skipped(), 1);
    assert_eq!(aggregator.items().len(), 1);
    assert_eq!(aggregator.items()[0].name, "Widget");
    assert_eq!(aggregator.items()[0].stats.prices, vec![units(50)]);
    assert_eq!(aggregator.items()[0].stats.supply_posts, 1);
    assert_eq!(aggregator.dates().len(), 2);

    let output = run_trade_analysis(&c, &vec![row("2024-01-02T10:00:00Z", "bike for 300")]);
    assert_eq!(output.skipped, 1);
    assert!(output.items.is_empty());
    assert_eq!(output.span.earliest, Some(at("2024-01-02T10:00:00Z")));
}

#[test]
fn without_a_single_valid_date_there_is_no_span_and_no_frequency() {
    let c = classifier();
    let rows = vec![
        row("", "selling widget 50"),
        row("tomorrow", "wtb gadget 10"),
        row("2024-01-01", "sprocket 5"),
        Row::Malformed,
    ];
    let output = run_trade_analysis(&c, &rows);
    assert_eq!(output.span, GlobalSpan { earliest: None, latest: None, seconds: 0 });
    assert_eq!(output.span.whole_days(), 0);
    assert_eq!(output.span.whole_weeks(), 0);
    assert_eq!(output.span.hundredths_of_months(), 0);
    assert_eq!(output.period, Period::NoData);
    assert!(output.items.is_empty());
    assert_eq!(output.rows, 4);
    assert_eq!(output.skipped, 4);

    let mut aggregator = Aggregator::new();
    aggregator.absorb(Classification {
        timestamp: None,
        outcome: Ok(ClassifiedTrade {
            item: "Widget".to_string(),
            price: units(5),
            intent: Intent::Supply,
            timestamp: at("2024-01-01T00:00:00Z"),
        }),
    });
    let output = aggregator.finish();
    assert_eq!(output.period, Period::NoData);
    assert_eq!(output.items.len(), 1);
    assert_eq!(output.items[0].rough_selling_frequency, Frequency::NotObserved);
}

#[test]
fn nothing_in_gives_an_empty_report() {
    let output = run_trade_analysis(&classifier(), &Vec::new());
    assert_eq!(output.span, GlobalSpan { earliest: None, latest: None, seconds: 0 });
    assert_eq!(output.period, Period::NoData);
    assert!(output.items.is_empty());
    assert_eq!((output.rows, output.skipped), (0, 0));
}

#[test]
fn items_are_ranked_by_median_price_and_ties_keep_their_order() {
    let c = classifier();
    let rows = vec![
        row("2024-01-01T00:00:00Z", "sprocket 10"),
        row("2024-01-02T00:00:00Z", "gadget 40"),
        row("2024-01-03T00:00:00Z", "widget 30"),
        row("2024-01-04T00:00:00Z", "gadget 20"),
        row("2024-01-05T00:00:00Z", "widget 90"),
        row("2024-01-06T00:00:00Z", "widget 30"),
    ];
    let output = run_trade_analysis(&c, &rows);
    assert_eq!(item_names(&output), vec!["Gadget", "Widget", "Sprocket"]);
    assert_eq!(output.items[0].estimated_price.median, Some(Median::Between(units(20), units(40))));
    assert_eq!(output.items[1].estimated_price.median, Some(Median::Single(units(30))));
    assert_eq!(output.items[2].estimated_price.median, Some(Median::Single(units(10))));

    let rows = vec![
        row("2024-01-01T00:00:00Z", "sprocket 30"),
        row("2024-01-02T00:00:00Z", "widget 30"),
        row("2024-01-03T00:00:00Z", "gadget 30"),
        row("2024-01-04T00:00:00Z", "gadget 50"),
        row("2024-01-04T00:00:00Z", "gadget 10"),
    ];
    let output = run_trade_analysis(&c, &rows);
    assert_eq!(item_names(&output), vec!["Sprocket", "Widget", "Gadget"]);
}

#[test]
fn posts_of_unknown_intent_add_a_price_but_no_post() {
    let c = classifier();
    let rows = vec![
        row("2024-01-01T00:00:00Z", "widget 10"),
        row("2024-01-02T00:00:00Z", "widget 20"),
        row("2024-01-03T00:00:00Z", "selling widget 30"),
    ];
    let output = run_trade_analysis(&c, &rows);
    let item = &output.items[0];
    assert_eq!(item.estimated_price.median, Some(Median::Single(units(20))));
    assert_eq!(item.supply_demand, SupplyDemand { supply_posts: 1, demand_posts: 0 });
    assert_eq!(
        item.estimated_trade_chances,
        TradeChance { chance_to_buy: 0, chance_to_sell: 10_000 }
    );
    assert_eq!(item.rough_selling_frequency, Frequency::PerWeek { hundredths: 350 });

    let rows = vec![row("2024-01-01T00:00:00Z", "widget 10")];
    let output = run_trade_analysis(&c, &rows);
    assert_eq!(
        output.items[0].estimated_trade_chances,
        TradeChance { chance_to_buy: 0, chance_to_sell: 0 }
    );
}

#[test]
fn frequency_goes_by_the_days_of_the_whole_log() {
    let c = classifier();
    let rows = vec![
        row("2024-01-01T00:00:00Z", "selling widget 10"),
        row("2024-01-01T00:00:00Z", "buying widget 12"),
        row("2024-01-01T00:00:00Z", "wts widget 11"),
        row("2024-01-01T06:00:00Z", "selling widget 13"),
        row("2024-01-01T12:00:00Z", "wtb gadget 5"),
        row("2024-04-10T00:00:00Z", "nothing to see"),
    ];
    let output = run_trade_analysis(&c, &rows);
    assert_eq!(output.span.whole_days(), 100);
    assert_eq!(output.period, Period::Months { months: 3, days: 10 });
    assert_eq!(item_names(&output), vec!["Widget", "Gadget"]);
    assert_eq!(output.items[0].rough_selling_frequency, Frequency::PerMonth { hundredths: 122 });
    assert_eq!(output.items[1].rough_selling_frequency, Frequency::OnceEvery { days: 100 });
    assert_eq!(
        output.items[0].estimated_trade_chances,
        TradeChance { chance_to_buy: 2_500, chance_to_sell: 7_500 }
    );
}

#[test]
fn the_order_of_the_rows_changes_only_the_order_of_equal_items() {
    let c = classifier();
    let rows = vec![
        row("2024-01-01T00:00:00Z", "selling widget 10"),
        row("2024-01-09T00:00:00Z", "wtb gadget 40"),
        row("2024-02-03T00:00:00Z", "widget 30"),
        row("bad date", "widget 30"),
        row("2024-01-04T00:00:00Z", "buying gadget 20"),
        row("2024-03-05T00:00:00Z", "wts widget 90"),
        row("2024-01-06T00:00:00Z", "sprocket 30"),
        row("2024-01-07T00:00:00Z", "no item 30"),
    ];
    let mut reversed = Vec::new();
    for i in (0..rows.len()).rev() {
        match &rows[i] {
            Row::Record(r) => reversed.push(row(&r.date, r.content.as_ref().unwrap())),
            Row::Malformed => reversed.push(Row::Malformed),
        }
    }
    let forward = run_trade_analysis(&c, &rows);
    let backward = run_trade_analysis(&c, &reversed);
    assert_eq!(forward.span, backward.span);
    assert_eq!(forward.period, backward.period);
    assert_eq!(forward.skipped, backward.skipped);
    assert_eq!(forward.rows, backward.rows);
    assert_eq!(item_names(&forward), vec!["Widget", "Gadget", "Sprocket"]);
    assert_eq!(item_names(&backward), vec!["Sprocket", "Widget", "Gadget"]);
    for item in forward.items.iter() {
        let other = backward.items.iter().find(|i| i.item == item.item).unwrap();
        assert_eq!(item.estimated_price, other.estimated_price);
        assert_eq!(item.supply_demand, other.supply_demand);
        assert_eq!(item.estimated_trade_chances, other.estimated_trade_chances);
        assert_eq!(item.rough_selling_frequency, other.rough_selling_frequency);
    }
}

#[test]
fn a_price_with_a_thousands_separator_is_read_whole() {
    let c = classifier();
    let rows = vec![row("2024-01-01T00:00:00+00:00", "selling Widget 1,500")];
    let output = run_trade_analysis(&c, &rows);
    assert_eq!(output.items.len(), 1);
    let item = &output.items[0];
    assert_eq!(item.item, "Widget");
    assert_eq!(
        item.estimated_price,
        EstimatedPrice {
            median: Some(Median::Single(units(1_500))),
            min: Some(units(1_500)),
            max: Some(units(1_500)),
        }
    );
    assert_eq!(item.estimated_price.median.unwrap().doubled() as f64 / 2.0 / 1e6, 1500.0);
    assert_eq!(item.supply_demand, SupplyDemand { supply_posts: 1, demand_posts: 0 });
}
