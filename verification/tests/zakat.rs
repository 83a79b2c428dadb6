use mizan::dates::CalendarDate;
use mizan::decimal::Dec;
use mizan::holdings::AssetKind;
use mizan::tools::holdings::HoldingType;
use mizan::zakat::{assess, assess_portfolio_holdings, loan_terms, ZakatHolding, ZakatInputs};
use rust_decimal::Decimal;
use std::str::FromStr;

fn fig(text: &str) -> Dec {
    let d = Decimal::from_str(text).unwrap();
    Dec { mantissa: d.mantissa(), scale: d.scale() }
}

fn num(d: Dec) -> Decimal {
    Decimal::from_i128_with_scale(d.mantissa, d.scale)
}

fn whole(n: i64) -> Dec {
    Dec::from_int(n)
}

fn inputs(cash: i64, metals: i64, tradable: i64, debts: i64, nisab: i64) -> ZakatInputs {
    ZakatInputs {
        liquid_cash: whole(cash),
        precious_metals: whole(metals),
        tradable_assets: whole(tradable),
        short_term_debts: whole(debts),
        nisab: whole(nisab),
        currency: Some("USD".to_string()),
    }
}

#[test]
fn below_nisab_owes_nothing() {
    let r = assess(inputs(4_000, 0, 0, 0, 5_000));
    assert!(!r.is_above_nisab);
    assert_eq!(num(r.zakat_due), Decimal::ZERO);
}

#[test]
fn exactly_at_nisab_owes_zakat() {
    let r = assess(inputs(5_000, 0, 0, 0, 5_000));
    assert!(r.is_above_nisab);
    assert_eq!(num(r.zakat_due), Decimal::from(125));
}

#[test]
fn above_nisab_charges_two_point_five_percent() {
    let r = assess(inputs(50_000, 20_000, 10_000, 5_000, 5_000));
    assert_eq!(num(r.total_assessable_assets), Decimal::from(80_000));
    assert_eq!(num(r.net_zakat_base), Decimal::from(75_000));
    assert!(r.is_above_nisab);
    assert_eq!(num(r.zakat_due), Decimal::from(1_875));
}

#[test]
fn net_indebted_owes_nothing() {
    let r = assess(inputs(10_000, 0, 0, 15_000, 5_000));
    assert!(!r.is_above_nisab);
    assert_eq!(num(r.zakat_due), Decimal::ZERO);
    assert_eq!(num(r.net_zakat_base), Decimal::from(-5_000));
}

#[test]
fn debts_reduce_zakatable_base() {
    let r = assess(inputs(10_000, 0, 0, 4_000, 5_000));
    assert_eq!(num(r.zakat_due), Decimal::from(150));
}

#[test]
fn always_emits_default_disclaimer() {
    let r = assess(inputs(10_000, 0, 0, 0, 5_000));
    assert!(!r.notes.is_empty());
    assert!(r.notes[0].contains("imam"));
}

#[test]
fn fractional_amounts_round_to_decimal_precision() {
    let r = assess(ZakatInputs {
        liquid_cash: fig("7777.77"),
        precious_metals: whole(0),
        tradable_assets: whole(0),
        short_term_debts: whole(0),
        nisab: whole(5_000),
        currency: Some("USD".to_string()),
    });
    assert_eq!(num(r.zakat_due), Decimal::from_str("194.444250").unwrap());
}

#[test]
fn currency_round_trips_into_report() {
    let r = assess(ZakatInputs { currency: Some("SAR".to_string()), ..inputs(50_000, 0, 0, 0, 5_000) });
    assert_eq!(r.currency.as_deref(), Some("SAR"));
}

fn holding(holding_type: HoldingType, kind: Option<AssetKind>, base: i64) -> ZakatHolding {
    ZakatHolding { holding_type, asset_kind: kind, value: whole(base), origination_date: None, loan_duration_years: None }
}

#[test]
fn assess_portfolio_routes_private_equity_to_tradable() {
    let holdings = vec![
        holding(HoldingType::AlternativeAsset, Some(AssetKind::PrivateEquity), 80_000),
        holding(HoldingType::Cash, None, 5_000),
    ];
    let report = assess_portfolio_holdings(&holdings, "USD", whole(5_000), today());
    assert_eq!(num(report.total_assessable_assets), Decimal::from(85_000));
    assert_eq!(num(report.net_zakat_base), Decimal::from(85_000));
    assert!(report.is_above_nisab);
    assert_eq!(num(report.zakat_due), Decimal::from(2_125));
}

#[test]
fn assess_portfolio_includes_unclassified_other_holdings_and_flags_them() {
    let holdings = vec![
        holding(HoldingType::Security, Some(AssetKind::Other), 20_000),
        holding(HoldingType::Cash, None, 5_000),
    ];
    let report = assess_portfolio_holdings(&holdings, "USD", whole(5_000), today());
    assert_eq!(num(report.total_assessable_assets), Decimal::from(25_000));
    assert_eq!(num(report.zakat_due), Decimal::from(625));
    assert!(
        report.notes.iter().any(|n| n.contains("unclassified holding")),
        "Other-kind inclusion must be flagged in report.notes. Got: {:?}",
        report.notes
    );
}

#[test]
fn assess_portfolio_excludes_consumer_use_assets() {
    let holdings = vec![
        holding(HoldingType::Cash, None, 10_000),
        holding(HoldingType::AlternativeAsset, Some(AssetKind::Property), 500_000),
        holding(HoldingType::AlternativeAsset, Some(AssetKind::Vehicle), 45_000),
        holding(HoldingType::AlternativeAsset, Some(AssetKind::Collectible), 25_000),
    ];
    let report = assess_portfolio_holdings(&holdings, "USD", whole(5_000), today());
    assert_eq!(num(report.total_assessable_assets), Decimal::from(10_000));
    assert_eq!(num(report.zakat_due), Decimal::from(250));
}

#[test]
fn assess_portfolio_subtracts_liabilities_correctly() {
    let holdings = vec![
        holding(HoldingType::Cash, None, 20_000),
        holding(HoldingType::AlternativeAsset, Some(AssetKind::Liability), -7_000),
    ];
    let report = assess_portfolio_holdings(&holdings, "USD", whole(5_000), today());
    assert_eq!(num(report.total_assessable_assets), Decimal::from(20_000));
    assert_eq!(num(report.deductible_debts), Decimal::from(7_000));
    assert_eq!(num(report.net_zakat_base), Decimal::from(13_000));
    assert_eq!(num(report.zakat_due), Decimal::from(325));
}

#[test]
fn unclassified_note_counts_and_values_the_holdings() {
    let holdings = vec![
        holding(HoldingType::Security, None, 1_000),
        ZakatHolding {
            holding_type: HoldingType::Security,
            asset_kind: Some(AssetKind::Other),
            value: fig("0.5"),
            origination_date: None,
            loan_duration_years: None,
        },
        holding(HoldingType::Security, Some(AssetKind::Fx), 9_999),
    ];
    let report = assess_portfolio_holdings(&holdings, "EUR", whole(100), today());
    assert_eq!(report.notes.len(), 3);
    assert!(report.notes[2].starts_with("2 unclassified holding(s) worth 1000.50 EUR were included"));
    assert!(report.notes[1].starts_with("Property, collectibles, and vehicles were excluded"));
    assert_eq!(report.currency.as_deref(), Some("EUR"));
}

#[test]
fn metals_count_and_no_unclassified_note() {
    let holdings = vec![
        holding(HoldingType::AlternativeAsset, Some(AssetKind::PreciousMetal), 6_000),
        holding(HoldingType::Security, Some(AssetKind::Investment), 4_000),
    ];
    let report = assess_portfolio_holdings(&holdings, "USD", whole(5_000), today());
    assert_eq!(report.notes.len(), 2);
    assert_eq!(num(report.total_assessable_assets), Decimal::from(10_000));
    assert_eq!(num(report.zakat_due), Decimal::from(250));
}

fn today() -> CalendarDate {
    CalendarDate { year: 2026, month: 5, day: 1 }
}

fn loan(value: i64, origination: CalendarDate, years: u32) -> ZakatHolding {
    ZakatHolding {
        holding_type: HoldingType::AlternativeAsset,
        asset_kind: Some(AssetKind::Liability),
        value: whole(value),
        origination_date: Some(origination),
        loan_duration_years: Some(years),
    }
}

#[test]
fn long_dated_liability_is_not_deducted() {
    let holdings = vec![
        holding(HoldingType::Cash, None, 20_000),
        loan(-7_000, CalendarDate { year: 2025, month: 1, day: 15 }, 30),
    ];
    let report = assess_portfolio_holdings(&holdings, "USD", whole(5_000), today());
    assert_eq!(num(report.deductible_debts), Decimal::ZERO);
    assert_eq!(num(report.net_zakat_base), Decimal::from(20_000));
    assert_eq!(num(report.zakat_due), Decimal::from(500));
}

#[test]
fn liability_maturing_within_a_year_is_deducted() {
    let holdings = vec![
        holding(HoldingType::Cash, None, 20_000),
        loan(-7_000, CalendarDate { year: 2022, month: 5, day: 1 }, 5),
        loan(-1_000, CalendarDate { year: 2022, month: 5, day: 2 }, 5),
    ];
    let report = assess_portfolio_holdings(&holdings, "USD", whole(5_000), today());
    assert_eq!(num(report.deductible_debts), Decimal::from(7_000));
    assert_eq!(num(report.zakat_due), Decimal::from(325));
}

#[test]
fn loan_terms_read_from_metadata() {
    let (d, y) = loan_terms(&Some("2025-01-15".to_string()), Some(30));
    assert_eq!(d, Some(CalendarDate { year: 2025, month: 1, day: 15 }));
    assert_eq!(y, Some(30));
    let (d, y) = loan_terms(&Some("15/01/2025".to_string()), Some(u64::MAX));
    assert_eq!(d, None);
    assert_eq!(y, None);
    assert_eq!(loan_terms(&None, None), (None, None));
    assert_eq!(loan_terms(&Some("2025-02-30".to_string()), None).0, None);
}
