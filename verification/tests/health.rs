use mizan::decimal::Dec;
use mizan::health::{score_health, try_score_health, HealthDriver, HealthInputs, HealthPosition, TargetAllocation};
use rust_decimal::Decimal;
use std::str::FromStr;

fn fig(text: &str) -> Dec {
    let d = Decimal::from_str(text).unwrap();
    Dec { mantissa: d.mantissa(), scale: d.scale() }
}

fn num(d: Dec) -> Decimal {
    Decimal::from_i128_with_scale(d.mantissa, d.scale)
}

fn pos(label: &str, asset_class: &str, value: &str, fx: bool, cash: bool) -> HealthPosition {
    HealthPosition {
        label: label.to_string(),
        asset_class: asset_class.to_string(),
        value_base: fig(value),
        is_foreign_currency: fx,
        is_cash: cash,
    }
}

fn target(pairs: &[(&str, &str)]) -> TargetAllocation {
    pairs.iter().map(|(k, v)| (k.to_string(), fig(v))).collect()
}

fn driver<'a>(drivers: &'a [HealthDriver], id: &str) -> &'a HealthDriver {
    drivers.iter().find(|d| d.id == id).unwrap()
}

fn usd() -> Option<String> {
    Some("USD".to_string())
}

#[test]
fn empty_portfolio_has_none_score() {
    let report = score_health(HealthInputs { positions: vec![], target_allocation: Vec::new(), base_currency: usd() });
    assert!(report.score.is_none());
    assert!(report.drivers.is_empty());
    assert!(report.worst_driver.is_none());
}

#[test]
fn perfectly_balanced_portfolio_scores_near_100() {
    let report = score_health(HealthInputs {
        positions: vec![
            pos("VTI", "EQUITY", "6000", false, false),
            pos("BND", "BOND", "3000", false, false),
            pos("Cash", "CASH", "1000", false, true),
        ],
        target_allocation: target(&[("EQUITY", "0.6"), ("BOND", "0.3"), ("CASH", "0.1")]),
        base_currency: usd(),
    });
    let score = num(report.score.unwrap());
    assert!(score >= Decimal::from(75), "expected >= 75, got {}", score);
}

#[test]
fn single_position_concentration_drags_score() {
    let report = score_health(HealthInputs {
        positions: vec![pos("AAPL", "EQUITY", "10000", false, false)],
        target_allocation: Vec::new(),
        base_currency: usd(),
    });
    let concentration = driver(&report.drivers, "concentration");
    assert_eq!(num(concentration.score), Decimal::ZERO);
    assert_eq!(report.worst_driver.unwrap().id, "concentration");
}

#[test]
fn all_foreign_currency_zeros_fx_driver() {
    let report = score_health(HealthInputs {
        positions: vec![pos("Toyota", "EQUITY", "5000", true, false), pos("Samsung", "EQUITY", "5000", true, false)],
        target_allocation: Vec::new(),
        base_currency: usd(),
    });
    let fx = driver(&report.drivers, "fxExposure");
    assert_eq!(num(fx.score), Decimal::ZERO);
    assert_eq!(num(fx.metric), Decimal::from_str("1.0000").unwrap());
}

#[test]
fn cash_at_or_below_target_scores_100() {
    let report = score_health(HealthInputs {
        positions: vec![pos("VTI", "EQUITY", "8000", false, false), pos("Cash", "CASH", "2000", false, true)],
        target_allocation: Vec::new(),
        base_currency: usd(),
    });
    let cash = driver(&report.drivers, "cashDrag");
    assert_eq!(num(cash.score), Decimal::from(100));
}

#[test]
fn all_cash_zeros_cash_driver() {
    let report = score_health(HealthInputs {
        positions: vec![pos("Cash", "CASH", "10000", false, true)],
        target_allocation: Vec::new(),
        base_currency: usd(),
    });
    let cash = driver(&report.drivers, "cashDrag");
    assert_eq!(num(cash.score), Decimal::ZERO);
}

#[test]
fn drift_skipped_when_no_target_set() {
    let report = score_health(HealthInputs {
        positions: vec![pos("VTI", "EQUITY", "1000", false, false)],
        target_allocation: Vec::new(),
        base_currency: None,
    });
    let drift = driver(&report.drivers, "allocationDrift");
    assert_eq!(num(drift.score), Decimal::from(100));
    assert!(report.notes.iter().any(|n| n.contains("No target")));
}

#[test]
fn fully_drifted_portfolio_zeros_drift_driver() {
    let report = score_health(HealthInputs {
        positions: vec![pos("VTI", "EQUITY", "10000", false, false)],
        target_allocation: target(&[("BOND", "1.0")]),
        base_currency: usd(),
    });
    let drift = driver(&report.drivers, "allocationDrift");
    assert_eq!(num(drift.score), Decimal::ZERO);
}

#[test]
fn worst_driver_is_lowest_scoring() {
    let report = score_health(HealthInputs {
        positions: vec![pos("Foreign cash", "CASH", "10000", true, true)],
        target_allocation: Vec::new(),
        base_currency: usd(),
    });
    let worst = report.worst_driver.unwrap();
    assert_eq!(num(worst.score), Decimal::ZERO);
}

#[test]
fn balanced_portfolio_exact_figures() {
    let report = score_health(HealthInputs {
        positions: vec![
            pos("VTI", "EQUITY", "6000", false, false),
            pos("BND", "BOND", "3000", false, false),
            pos("Cash", "CASH", "1000", false, true),
        ],
        target_allocation: target(&[("EQUITY", "0.6"), ("BOND", "0.3"), ("CASH", "0.1")]),
        base_currency: usd(),
    });
    assert_eq!(num(report.score.unwrap()), Decimal::from(85));
    let ids: Vec<&str> = report.drivers.iter().map(|d| d.id.as_str()).collect();
    assert_eq!(ids, vec!["concentration", "fxExposure", "cashDrag", "allocationDrift"]);
    let concentration = driver(&report.drivers, "concentration");
    assert_eq!(num(concentration.score), Decimal::from(40));
    assert_eq!(num(concentration.metric), Decimal::from_str("0.6").unwrap());
    assert_eq!(concentration.note, "Top position is 60.0% of the portfolio.");
    assert_eq!(driver(&report.drivers, "fxExposure").note, "0% of the portfolio is in non-base currencies.");
    let cash = driver(&report.drivers, "cashDrag");
    assert_eq!(num(cash.score), Decimal::from(100));
    assert_eq!(cash.note, "10.0% in cash (target ≤ 20%).");
    let drift = driver(&report.drivers, "allocationDrift");
    assert_eq!(num(drift.score), Decimal::from(100));
    assert_eq!(drift.note, "0% absolute drift vs. target allocation.");
    assert_eq!(report.worst_driver.unwrap().id, "concentration");
    assert_eq!(report.notes.len(), 1);
    assert_eq!(report.base_currency, usd());
}

#[test]
fn cash_above_target_degrades_linearly() {
    let report = score_health(HealthInputs {
        positions: vec![pos("VTI", "EQUITY", "4000", false, false), pos("Cash", "CASH", "6000", false, true)],
        target_allocation: Vec::new(),
        base_currency: usd(),
    });
    let cash = driver(&report.drivers, "cashDrag");
    assert_eq!(num(cash.score), Decimal::from(50));
    assert_eq!(num(cash.metric), Decimal::from_str("0.6").unwrap());
}

#[test]
fn full_drift_metric_is_one() {
    let report = score_health(HealthInputs {
        positions: vec![pos("VTI", "EQUITY", "10000", false, false)],
        target_allocation: target(&[("BOND", "1.0")]),
        base_currency: usd(),
    });
    let drift = driver(&report.drivers, "allocationDrift");
    assert_eq!(num(drift.metric), Decimal::ONE);
    assert_eq!(drift.note, "100.0% absolute drift vs. target allocation.");
    assert_eq!(report.notes.len(), 1);
}

#[test]
fn first_of_equal_lowest_drivers_is_called_out() {
    let report = score_health(HealthInputs {
        positions: vec![pos("Foreign cash", "CASH", "10000", true, true)],
        target_allocation: Vec::new(),
        base_currency: usd(),
    });
    assert_eq!(report.worst_driver.unwrap().id, "concentration");
}

#[test]
fn negative_total_has_none_score() {
    let report = score_health(HealthInputs {
        positions: vec![pos("Loan", "DEBT", "-500", false, false)],
        target_allocation: Vec::new(),
        base_currency: usd(),
    });
    assert!(report.score.is_none());
    assert!(report.drivers.is_empty());
    assert_eq!(report.notes.len(), 1);
}

#[test]
fn overflowing_total_is_refused() {
    let big = Dec { mantissa: (1i128 << 96) - 1, scale: 0 };
    let position = |label: &str| HealthPosition {
        label: label.to_string(),
        asset_class: "EQUITY".to_string(),
        value_base: big,
        is_foreign_currency: false,
        is_cash: false,
    };
    let report = try_score_health(HealthInputs {
        positions: vec![position("A"), position("B")],
        target_allocation: Vec::new(),
        base_currency: None,
    });
    assert!(report.is_none());
}

#[test]
fn try_score_matches_score_in_range() {
    let inputs = || HealthInputs {
        positions: vec![pos("VTI", "EQUITY", "7500", false, false), pos("Cash", "CASH", "2500", false, true)],
        target_allocation: target(&[("EQUITY", "0.5"), ("CASH", "0.5")]),
        base_currency: usd(),
    };
    let a = try_score_health(inputs()).unwrap();
    let b = score_health(inputs());
    assert_eq!(num(a.score.unwrap()), num(b.score.unwrap()));
    let drift = driver(&a.drivers, "allocationDrift");
    assert_eq!(num(drift.score), Decimal::from(75));
}
