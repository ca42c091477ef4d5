use trade_analysis::timestamp::{seconds_between, Timestamp, MAX_EPOCH_SECONDS};

fn at(text: &str) -> Timestamp {
    Timestamp::parse(text).unwrap()
}

#[test]
fn rfc3339_text_is_read_as_an_instant() {
    let t = at("1970-01-01T00:00:00Z");
    assert_eq!((t.epoch_seconds(), t.subsec_nanos()), (0, 0));
    let t = at("2015-05-15T00:00:00Z");
    assert_eq!(t.epoch_seconds(), 1_431_648_000);
    let t = at("2024-03-01T12:30:45.5+02:00");
    assert_eq!((t.epoch_seconds(), t.subsec_nanos()), (1_709_289_045, 500_000_000));
    let t = at("1969-12-31T23:59:59Z");
    assert_eq!(t.epoch_seconds(), -1);
}

#[test]
fn the_offset_does_not_change_the_instant() {
    assert_eq!(at("2024-03-01T12:00:00+02:00"), at("2024-03-01T10:00:00Z"));
    assert_eq!(at("2024-03-01T12:00:00-05:00"), at("2024-03-01T17:00:00Z"));
}

#[test]
fn text_that_is_no_date_is_not_read() {
    assert!(Timestamp::parse("").is_none());
    assert!(Timestamp::parse("yesterday").is_none());
    assert!(Timestamp::parse("2024-03-01").is_none());
    assert!(Timestamp::parse("2024-03-01T12:00:00").is_none());
    assert!(Timestamp::parse("2024-13-01T12:00:00Z").is_none());
    assert!(Timestamp::parse("01/03/2024 12:00").is_none());
}

#[test]
fn a_leap_second_is_held_in_the_nanoseconds() {
    let t = at("2016-12-31T23:59:60Z");
    assert_eq!(t.epoch_seconds(), 1_483_228_799);
    assert_eq!(t.subsec_nanos(), 1_000_000_000);
    let t = at("2016-12-31T23:59:60.25Z");
    assert_eq!(t.subsec_nanos(), 1_250_000_000);
}

#[test]
fn timestamps_are_checked_against_the_range() {
    assert!(Timestamp::new(0, 0).is_some());
    assert!(Timestamp::new(MAX_EPOCH_SECONDS, 1_999_999_999).is_some());
    assert!(Timestamp::new(-MAX_EPOCH_SECONDS, 0).is_some());
    assert!(Timestamp::new(MAX_EPOCH_SECONDS + 1, 0).is_none());
    assert!(Timestamp::new(-MAX_EPOCH_SECONDS - 1, 0).is_none());
    assert!(Timestamp::new(0, 2_000_000_000).is_none());
}

#[test]
fn order_is_by_seconds_and_then_nanoseconds() {
    let a = Timestamp::new(10, 5).unwrap();
    let b = Timestamp::new(10, 6).unwrap();
    let c = Timestamp::new(11, 0).unwrap();
    assert!(a.is_at_or_before(&a));
    assert!(a.is_at_or_before(&b));
    assert!(!b.is_at_or_before(&a));
    assert!(b.is_at_or_before(&c));
    assert!(!c.is_at_or_before(&a));
}

#[test]
fn whole_seconds_between_two_instants() {
    let a = Timestamp::new(100, 900_000_000).unwrap();
    let b = Timestamp::new(101, 100_000_000).unwrap();
    assert_eq!(seconds_between(&a, &b), Some(0));
    let c = Timestamp::new(101, 900_000_000).unwrap();
    assert_eq!(seconds_between(&a, &c), Some(1));
    assert_eq!(seconds_between(&a, &a), Some(0));
    assert_eq!(seconds_between(&b, &a), None);
    let early = Timestamp::new(-MAX_EPOCH_SECONDS, 0).unwrap();
    let late = Timestamp::new(MAX_EPOCH_SECONDS, 999_999_999).unwrap();
    assert_eq!(seconds_between(&early, &late), Some(2 * (MAX_EPOCH_SECONDS as u64)));
    assert_eq!(
        seconds_between(&at("2024-01-01T00:00:00Z"), &at("2024-01-02T00:00:00Z")),
        Some(86_400)
    );
}

#[test]
fn seconds_between_agree_with_chrono() {
    let texts = [
        "2016-12-31T23:59:59Z",
        "2016-12-31T23:59:60Z",
        "2016-12-31T23:59:60.5Z",
        "2017-01-01T00:00:00Z",
        "2017-01-01T00:00:00.75Z",
        "2017-01-01T23:59:59.999999999Z",
        "2017-01-02T00:00:10Z",
        "2017-01-02T11:59:60.2Z",
        "2017-01-02T12:00:00Z",
        "1969-12-31T23:59:60.9Z",
        "1970-01-01T00:00:00.1Z",
        "2030-06-15T08:30:00+05:30",
    ];
    for first_text in texts.iter() {
        for last_text in texts.iter() {
            let first = chrono::DateTime::parse_from_rfc3339(first_text).unwrap();
            let last = chrono::DateTime::parse_from_rfc3339(last_text).unwrap();
            let ours = seconds_between(&at(first_text), &at(last_text));
            if first <= last {
                let theirs = last.signed_duration_since(first).num_seconds();
                assert_eq!(ours, Some(theirs as u64), "{} to {}", first_text, last_text);
            } else {
                assert_eq!(ours, None, "{} to {}", first_text, last_text);
            }
        }
    }
}
