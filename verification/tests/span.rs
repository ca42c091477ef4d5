use trade_analysis::span::{Period, GlobalSpan};
use trade_analysis::timestamp::Timestamp;

fn at(text: &str) -> Timestamp {
    Timestamp::parse(text).unwrap()
}

fn span_of(texts: &[&str]) -> GlobalSpan {
    let times: Vec<Timestamp> = texts.iter().map(|t| at(t)).collect();
    GlobalSpan::of(&times)
}

#[test]
fn no_times_span_nothing() {
    let span = GlobalSpan::of(&Vec::new());
    assert_eq!(span, GlobalSpan { earliest: None, latest: None, seconds: 0 });
    assert_eq!(span.whole_days(), 0);
    assert_eq!(span.whole_weeks(), 0);
    assert_eq!(span.hundredths_of_months(), 0);
    assert_eq!(span.display_period(), Period::NoData);
}

#[test]
fn one_time_spans_nothing_but_is_data() {
    let span = span_of(&["2024-01-01T00:00:00Z"]);
    assert_eq!(span.earliest, Some(at("2024-01-01T00:00:00Z")));
    assert_eq!(span.latest, span.earliest);
    assert_eq!(span.seconds, 0);
    assert_eq!(span.display_period(), Period::LessThanADay);
}

#[test]
fn the_span_runs_from_the_earliest_to_the_latest_time() {
    let span = span_of(&[
        "2024-01-05T00:00:00Z",
        "2024-01-01T06:00:00Z",
        "2024-01-09T18:00:00Z",
        "2024-01-03T00:00:00Z",
    ]);
    assert_eq!(span.earliest, Some(at("2024-01-01T06:00:00Z")));
    assert_eq!(span.latest, Some(at("2024-01-09T18:00:00Z")));
    assert_eq!(span.seconds, 8 * 86_400 + 12 * 3_600);
    assert_eq!(span.whole_days(), 8);
    assert_eq!(span.whole_weeks(), 1);
    assert_eq!(span.display_period(), Period::Weeks { weeks: 1, days: 1 });
}

#[test]
fn equal_times_span_less_than_a_day() {
    let span = span_of(&["2024-01-01T00:00:00Z", "2024-01-01T01:00:00+01:00"]);
    assert_eq!(span.seconds, 0);
    assert_eq!(span.display_period(), Period::LessThanADay);
    let span = span_of(&["2024-01-01T00:00:00.2Z", "2024-01-01T00:00:00.9Z"]);
    assert_eq!(span.seconds, 0);
    assert_eq!(span.display_period(), Period::LessThanADay);
}

#[test]
fn less_than_a_week_is_told_in_days() {
    let span = span_of(&["2024-01-01T00:00:00Z", "2024-01-01T00:00:01Z"]);
    assert_eq!(span.display_period(), Period::Days { days: 0 });
    let span = span_of(&["2024-01-01T00:00:00Z", "2024-01-07T23:59:59Z"]);
    assert_eq!(span.display_period(), Period::Days { days: 6 });
}

#[test]
fn less_than_a_month_is_told_in_weeks() {
    let span = span_of(&["2024-01-01T00:00:00Z", "2024-01-08T00:00:00Z"]);
    assert_eq!(span.display_period(), Period::Weeks { weeks: 1, days: 0 });
    let span = span_of(&["2024-01-01T00:00:00Z", "2024-01-31T00:00:00Z"]);
    assert_eq!(span.whole_days(), 30);
    assert_eq!(span.display_period(), Period::Weeks { weeks: 4, days: 2 });
}

#[test]
fn a_month_or_more_is_told_in_months_of_thirty_days() {
    let span = span_of(&["2024-01-01T00:00:00Z", "2024-02-01T00:00:00Z"]);
    assert_eq!(span.whole_days(), 31);
    assert_eq!(span.display_period(), Period::Months { months: 1, days: 1 });
    assert_eq!(span.hundredths_of_months(), 102);
    let span = span_of(&["2023-01-01T00:00:00Z", "2024-01-01T00:00:00Z"]);
    assert_eq!(span.whole_days(), 365);
    assert_eq!(span.whole_weeks(), 52);
    assert_eq!(span.display_period(), Period::Months { months: 12, days: 5 });
    assert_eq!(span.hundredths_of_months(), 1_199);
}

#[test]
fn a_leap_second_is_counted_within_its_day() {
    let span = span_of(&["2016-12-31T23:59:60Z", "2017-01-01T00:00:00Z"]);
    assert_eq!(span.seconds, 0);
    let span = span_of(&["2016-12-31T23:59:00Z", "2016-12-31T23:59:60.5Z"]);
    assert_eq!(span.seconds, 60);
    let span = span_of(&["2016-12-31T23:59:59Z", "2016-12-31T23:59:60Z"]);
    assert_eq!(span.seconds, 1);
    let span = span_of(&["2016-12-31T23:59:59Z", "2017-01-01T00:00:00Z"]);
    assert_eq!(span.seconds, 1);
}
