use trade_analysis::rates::{classify_frequency, round_ratio, trade_chances, Frequency, TradeChance};

#[test]
fn ratios_round_to_the_nearest_whole_number() {
    assert_eq!(round_ratio(0, 7), 0);
    assert_eq!(round_ratio(10, 4), 2);
    assert_eq!(round_ratio(14, 4), 4);
    assert_eq!(round_ratio(9, 4), 2);
    assert_eq!(round_ratio(11, 4), 3);
    assert_eq!(round_ratio(7, 7), 1);
    assert_eq!(round_ratio(1, 3), 0);
    assert_eq!(round_ratio(2, 3), 1);
}

#[test]
fn a_ratio_half_way_rounds_to_the_even_number() {
    assert_eq!(round_ratio(1, 2), 0);
    assert_eq!(round_ratio(3, 2), 2);
    assert_eq!(round_ratio(5, 2), 2);
    assert_eq!(round_ratio(7, 2), 4);
    assert_eq!(round_ratio(u128::MAX, 1), u128::MAX);
    assert_eq!(round_ratio(u128::MAX, u128::MAX), 1);
    assert_eq!(round_ratio(u128::MAX - 1, u128::MAX), 1);
}

#[test]
fn chances_are_shares_of_the_decided_posts() {
    assert_eq!(trade_chances(1, 1), TradeChance { chance_to_buy: 5_000, chance_to_sell: 5_000 });
    assert_eq!(trade_chances(3, 1), TradeChance { chance_to_buy: 2_500, chance_to_sell: 7_500 });
    assert_eq!(trade_chances(2, 1), TradeChance { chance_to_buy: 3_333, chance_to_sell: 6_667 });
    assert_eq!(trade_chances(31, 1), TradeChance { chance_to_buy: 312, chance_to_sell: 9_688 });
}

#[test]
fn a_chance_is_nothing_where_its_count_is() {
    assert_eq!(trade_chances(0, 0), TradeChance { chance_to_buy: 0, chance_to_sell: 0 });
    assert_eq!(trade_chances(5, 0), TradeChance { chance_to_buy: 0, chance_to_sell: 10_000 });
    assert_eq!(trade_chances(0, 5), TradeChance { chance_to_buy: 10_000, chance_to_sell: 0 });
    let extreme = trade_chances(u64::MAX, u64::MAX);
    assert_eq!(extreme, TradeChance { chance_to_buy: 5_000, chance_to_sell: 5_000 });
    let lopsided = trade_chances(u64::MAX, 1);
    assert_eq!(lopsided, TradeChance { chance_to_buy: 0, chance_to_sell: 10_000 });
}

#[test]
fn frequency_is_not_observed_without_posts_or_days() {
    assert_eq!(classify_frequency(0, 10), Frequency::NotObserved);
    assert_eq!(classify_frequency(10, 0), Frequency::NotObserved);
    assert_eq!(classify_frequency(0, 0), Frequency::NotObserved);
}

#[test]
fn frequency_per_day() {
    assert_eq!(classify_frequency(10, 10), Frequency::PerDay { hundredths: 100 });
    assert_eq!(classify_frequency(25, 10), Frequency::PerDay { hundredths: 250 });
    assert_eq!(classify_frequency(10, 3), Frequency::PerDay { hundredths: 333 });
}

#[test]
fn frequency_per_week() {
    assert_eq!(classify_frequency(1, 7), Frequency::PerWeek { hundredths: 100 });
    assert_eq!(classify_frequency(9, 10), Frequency::PerWeek { hundredths: 630 });
    assert_eq!(classify_frequency(2, 7), Frequency::PerWeek { hundredths: 200 });
}

#[test]
fn frequency_per_month() {
    assert_eq!(classify_frequency(1, 8), Frequency::PerMonth { hundredths: 380 });
    assert_eq!(classify_frequency(1, 30), Frequency::PerMonth { hundredths: 101 });
    assert_eq!(classify_frequency(25, 761), Frequency::PerMonth { hundredths: 100 });
}

#[test]
fn frequency_once_in_so_many_days() {
    assert_eq!(classify_frequency(1, 31), Frequency::OnceEvery { days: 31 });
    assert_eq!(classify_frequency(2, 100), Frequency::OnceEvery { days: 50 });
    assert_eq!(classify_frequency(3, 100), Frequency::OnceEvery { days: 33 });
    assert_eq!(classify_frequency(2, 125), Frequency::OnceEvery { days: 62 });
    assert_eq!(classify_frequency(25, 762), Frequency::OnceEvery { days: 30 });
}
