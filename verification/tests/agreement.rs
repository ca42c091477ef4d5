use trade_analysis::price::price_of_token;
use trade_analysis::rates::{classify_frequency, trade_chances, Frequency};
use trade_analysis::span::GlobalSpan;
use trade_analysis::timestamp::Timestamp;

// The same quantities computed in floating point. The library rounds the
// exact ratio, so the two agree wherever the ratio is not exactly half-way
// between two printed values.

fn float_frequency(total_posts: u32, total_days: f64) -> String {
    if total_posts > 0 && total_days > 0.0 {
        let trades_per_day = total_posts as f64 / total_days;
        if trades_per_day >= 1.0 {
            format!("{:.2} times/day", trades_per_day)
        } else if trades_per_day * 7.0 >= 1.0 {
            format!("{:.2} times/week", trades_per_day * 7.0)
        } else if trades_per_day * 30.44 >= 1.0 {
            format!("{:.2} times/month", trades_per_day * 30.44)
        } else {
            format!("Once every {:.0} days", 1.0 / trades_per_day)
        }
    } else {
        "Infrequently/Not observed".to_string()
    }
}

fn float_chance(count: u32, total: u32) -> String {
    let chance = if total > 0 && count > 0 {
        (count as f64 / total as f64) * 100.0
    } else {
        0.0
    };
    format!("{:.2}%", chance)
}

fn float_period(present: bool, seconds: i64) -> String {
    let days = seconds / 86_400;
    let weeks = days / 7;
    let total_days = days as f64;
    let total_weeks = weeks as f64;
    let total_months = total_days / 30.44;
    if !present {
        "No data available".to_string()
    } else if seconds == 0 {
        "Less than a day (or only one record)".to_string()
    } else if total_months >= 1.0 {
        format!("{} months, {} days", days / 30, days % 30)
    } else if total_weeks >= 1.0 {
        format!("{} weeks, {} days", days / 7, days % 7)
    } else {
        format!("{:.0} days", total_days)
    }
}

fn is_half_way(num: u128, den: u128) -> bool {
    2 * (num % den) == den
}

#[test]
fn frequency_agrees_with_floating_point_off_the_half_way_cases() {
    let mut half_way = 0;
    for posts in 0u32..150 {
        for days in 0u64..1500 {
            let frequency = classify_frequency(posts as u64, days);
            let p = posts as u128;
            let d = days as u128;
            let tie = match frequency {
                Frequency::NotObserved => false,
                Frequency::PerDay { .. } => is_half_way(100 * p, d),
                Frequency::PerWeek { .. } => is_half_way(700 * p, d),
                Frequency::PerMonth { .. } => is_half_way(3_044 * p, d),
                Frequency::OnceEvery { .. } => is_half_way(d, p),
            };
            if tie {
                half_way += 1;
            } else {
                assert_eq!(
                    frequency.describe(),
                    float_frequency(posts, days as f64),
                    "{} posts in {} days",
                    posts,
                    days
                );
            }
        }
    }
    assert!(half_way > 0);
}

#[test]
fn chances_agree_with_floating_point_off_the_half_way_cases() {
    for supply in 0u32..200 {
        for demand in 0u32..200 {
            let total = supply + demand;
            let ours = trade_chances(supply as u64, demand as u64);
            if total == 0 || !is_half_way(10_000 * demand as u128, total as u128) {
                assert_eq!(ours.buy_text(), float_chance(demand, total));
            }
            if total == 0 || !is_half_way(10_000 * supply as u128, total as u128) {
                assert_eq!(ours.sell_text(), float_chance(supply, total));
            }
        }
    }
}

#[test]
fn periods_agree_with_floating_point() {
    let t = Timestamp::new(0, 0);
    for days in 0u64..2_000 {
        for extra in [0u64, 1, 86_399] {
            let seconds = days * 86_400 + extra;
            let span = GlobalSpan { earliest: t, latest: t, seconds };
            assert_eq!(span.display_period().describe(), float_period(true, seconds as i64));
            if !is_half_way(days as u128 * 10_000, 3_044) {
                let total_days = days as f64;
                let total_weeks = (days / 7) as f64;
                assert_eq!(
                    span.describe_length(),
                    format!(
                        "{:.2} days ({:.2} weeks, {:.2} months)",
                        total_days,
                        total_weeks,
                        total_days / 30.44
                    )
                );
            }
        }
    }
    let nothing = GlobalSpan { earliest: None, latest: None, seconds: 0 };
    assert_eq!(nothing.display_period().describe(), float_period(false, 0));
}

#[test]
fn plain_prices_agree_with_floating_point_parsing() {
    let wholes = ["0", "1", "7", "42", "050", "999", "1234", "65536", "123456789"];
    let fractions = ["", ".", ".0", ".5", ".25", ".1", ".01", ".001", ".333333", ".999999"];
    for whole in wholes.iter() {
        for fraction in fractions.iter() {
            let token = format!("{}{}", whole, fraction);
            let ours = price_of_token(&token).unwrap().micros() as f64 / 1_000_000.0;
            let theirs: f64 = token.parse().unwrap();
            assert_eq!(ours, theirs, "{}", token);
        }
    }
}

#[test]
fn tokens_are_prices_exactly_where_floating_point_reads_them() {
    let tokens = [
        "1", "1.", "1.5", "1.5.", "1..5", "1.2.3", "12.", "0.0", "00", "3.14159265", "7.", "9.9.9",
        "1...", "0.5k", "1.k", "1.2.k", "5k", "2.5k", "10..k",
    ];
    for token in tokens.iter() {
        let body = token.strip_suffix('k').unwrap_or(token);
        let theirs = body.parse::<f64>().is_ok();
        assert_eq!(price_of_token(token).is_some(), theirs, "{}", token);
    }
}
