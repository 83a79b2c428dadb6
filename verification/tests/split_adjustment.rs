use mizan::dates::CalendarDate;
use mizan::decimal::Dec;
use mizan::split_adjustment::{
    collect_split_factors, cumulative_factor_after, split_adjusted_close, try_split_adjusted_close, SplitActivity,
};
use rust_decimal::Decimal;
use std::str::FromStr;

fn fig(text: &str) -> Dec {
    let d = Decimal::from_str(text).unwrap();
    Dec { mantissa: d.mantissa(), scale: d.scale() }
}

fn num(d: Dec) -> Decimal {
    Decimal::from_i128_with_scale(d.mantissa, d.scale)
}

fn d(y: i32, m: u32, day: u32) -> CalendarDate {
    CalendarDate { year: y, month: m, day }
}

fn dec(text: &str) -> Decimal {
    Decimal::from_str(text).unwrap()
}

fn split(id: &str, asset: Option<&str>, date: CalendarDate, ratio: Option<&str>) -> SplitActivity {
    SplitActivity {
        id: id.to_string(),
        activity_type: "SPLIT".to_string(),
        date,
        asset_id: asset.map(|a| a.to_string()),
        amount: ratio.map(fig),
    }
}

#[test]
fn no_splits_is_identity() {
    let splits: Vec<(CalendarDate, Dec)> = vec![];
    assert_eq!(num(cumulative_factor_after(&splits, d(2020, 1, 1))), dec("1"));
    assert_eq!(num(split_adjusted_close(fig("123.45"), &splits, d(2020, 1, 1))), dec("123.45"));
}

#[test]
fn factor_counts_only_strictly_later_splits() {
    let splits = vec![(d(2020, 8, 31), fig("4"))];
    assert_eq!(num(cumulative_factor_after(&splits, d(2019, 1, 1))), dec("4"));
    assert_eq!(num(cumulative_factor_after(&splits, d(2020, 8, 31))), dec("1"));
    assert_eq!(num(cumulative_factor_after(&splits, d(2021, 1, 1))), dec("1"));
}

#[test]
fn pre_split_close_is_divided_into_current_basis() {
    let splits = vec![(d(2020, 8, 31), fig("4"))];
    assert_eq!(num(split_adjusted_close(fig("500"), &splits, d(2019, 1, 1))), dec("125"));
    assert_eq!(num(split_adjusted_close(fig("125"), &splits, d(2021, 1, 1))), dec("125"));
}

#[test]
fn multiple_splits_compound() {
    let splits = vec![(d(2018, 6, 1), fig("2")), (d(2020, 6, 1), fig("3"))];
    assert_eq!(num(cumulative_factor_after(&splits, d(2017, 1, 1))), dec("6"));
    assert_eq!(num(cumulative_factor_after(&splits, d(2019, 1, 1))), dec("3"));
}

#[test]
fn reverse_split_inflates_pre_split_close() {
    let splits = vec![(d(2022, 1, 10), fig("0.2"))];
    assert_eq!(num(split_adjusted_close(fig("10"), &splits, d(2021, 1, 1))), dec("50"));
}

#[test]
fn collect_keeps_splits_in_range_sorted_and_once_per_date() {
    let acts = vec![
        split("a1", Some("AAPL"), d(2020, 8, 31), Some("4")),
        split("t1", Some("TSLA"), d(2022, 8, 25), Some("3")),
        split("a0", Some("AAPL"), d(2014, 6, 9), Some("7")),
        split("a2", Some("AAPL"), d(2020, 8, 31), Some("4")),
        split("x", None, d(2019, 1, 1), Some("2")),
        split("bad", Some("AAPL"), d(2016, 1, 1), Some("-2")),
        split("zero", Some("AAPL"), d(2017, 1, 1), Some("0")),
        split("none", Some("AAPL"), d(2018, 1, 1), None),
        split("late", Some("AAPL"), d(2030, 1, 1), Some("2")),
        SplitActivity {
            id: "buy".to_string(),
            activity_type: "BUY".to_string(),
            date: d(2019, 1, 1),
            asset_id: Some("MSFT".to_string()),
            amount: Some(fig("10")),
        },
    ];
    let f = collect_split_factors(&acts, d(2010, 1, 1), d(2025, 12, 31));
    assert_eq!(f.len(), 2);
    assert_eq!(f[0].0, "AAPL");
    assert_eq!(f[0].1.len(), 2);
    assert_eq!(f[0].1[0].0, d(2014, 6, 9));
    assert_eq!(num(f[0].1[0].1), dec("7"));
    assert_eq!(f[0].1[1].0, d(2020, 8, 31));
    assert_eq!(num(f[0].1[1].1), dec("4"));
    assert_eq!(f[1].0, "TSLA");
    assert_eq!(f[1].1.len(), 1);
}

#[test]
fn collect_range_is_inclusive() {
    let acts = vec![
        split("s", Some("A"), d(2020, 1, 1), Some("2")),
        split("e", Some("A"), d(2020, 12, 31), Some("3")),
    ];
    let f = collect_split_factors(&acts, d(2020, 1, 1), d(2020, 12, 31));
    assert_eq!(f.len(), 1);
    assert_eq!(f[0].1.len(), 2);
    let factor = cumulative_factor_after(&f[0].1, d(2019, 6, 1));
    assert_eq!(num(factor), dec("6"));
}

#[test]
fn adjusted_close_overflow_is_refused() {
    let splits = vec![(d(2022, 1, 10), fig("0.0000000000000000000000000001"))];
    let big = Dec { mantissa: (1i128 << 96) - 1, scale: 0 };
    assert!(try_split_adjusted_close(big, &splits, d(2021, 1, 1)).is_none());
    assert_eq!(num(try_split_adjusted_close(fig("10"), &splits, d(2023, 1, 1)).unwrap()), dec("10"));
}
