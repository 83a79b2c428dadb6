use mizan::amortization::{add_one_month, build_schedule, days_in_month, is_leap_year, try_build_schedule, AmortizationInputs};
use mizan::dates::CalendarDate;
use mizan::decimal::Dec;
use rust_decimal::Decimal;
use std::str::FromStr;

fn d(s: &str) -> CalendarDate {
    let parts: Vec<&str> = s.split('-').collect();
    CalendarDate { year: parts[0].parse().unwrap(), month: parts[1].parse().unwrap(), day: parts[2].parse().unwrap() }
}

fn fig(text: &str) -> Dec {
    let v = Decimal::from_str(text).unwrap();
    Dec { mantissa: v.mantissa(), scale: v.scale() }
}

fn num(x: &Dec) -> Decimal {
    Decimal::from_i128_with_scale(x.mantissa, x.scale)
}

fn dec(text: &str) -> Decimal {
    Decimal::from_str(text).unwrap()
}

fn inputs(balance: &str, annual_rate: &str, payment: Option<&str>, term: Option<u32>, start: CalendarDate) -> AmortizationInputs {
    AmortizationInputs {
        current_balance: fig(balance),
        annual_rate: fig(annual_rate),
        monthly_payment: payment.map(fig),
        remaining_months: term,
        start_date: start,
        currency: Some("USD".into()),
    }
}

#[test]
fn zero_balance_returns_empty_schedule() {
    let report = build_schedule(inputs("0", "0.05", None, Some(12), d("2026-01-01")));
    assert!(report.schedule.is_empty());
    assert_eq!(num(&report.monthly_payment), Decimal::ZERO);
    assert_eq!(num(&report.total_interest), Decimal::ZERO);
}

#[test]
fn zero_rate_flat_principal_only_schedule() {
    let report = build_schedule(inputs("1200", "0", None, Some(12), d("2026-01-01")));
    assert_eq!(report.schedule.len(), 12);
    assert_eq!(num(&report.monthly_payment), dec("100"));
    assert_eq!(num(&report.total_interest), Decimal::ZERO);
    assert_eq!(num(&report.total_principal), dec("1200"));
    assert_eq!(report.payoff_date, d("2026-12-01"));
    assert_eq!(num(&report.schedule.last().unwrap().balance_after), Decimal::ZERO);
}

#[test]
fn standard_mortgage_30_year_at_6pct() {
    let report = build_schedule(inputs("300000", "0.06", None, Some(360), d("2026-01-15")));
    assert!((359..=361).contains(&report.schedule.len()), "expected ~360 installments, got {}", report.schedule.len());
    let diff = (num(&report.monthly_payment) - dec("1798.65")).abs();
    assert!(diff < dec("1.0"), "EMI {} drifted too far", num(&report.monthly_payment));
    assert!(num(&report.total_interest) > dec("300000"));
    assert_eq!(num(&report.schedule.last().unwrap().balance_after), Decimal::ZERO);
    assert!(num(&report.schedule[0].interest) > num(&report.schedule[0].principal));
    let last = report.schedule.last().unwrap();
    assert!(num(&last.principal) > num(&last.interest));
}

#[test]
fn explicit_monthly_payment_overrides_emi_derivation() {
    let report = build_schedule(inputs("10000", "0.05", Some("500"), None, d("2026-01-01")));
    assert_eq!(num(&report.monthly_payment), dec("500"));
    assert_eq!(num(&report.schedule.last().unwrap().balance_after), Decimal::ZERO);
    let final_payment = num(&report.schedule.last().unwrap().payment);
    assert!(final_payment <= dec("500"));
}

#[test]
fn payment_too_small_caps_schedule_and_notes() {
    let report = build_schedule(inputs("10000", "0.10", Some("1"), None, d("2026-01-01")));
    assert_eq!(report.schedule.len() as u32, 600);
    assert!(report.notes.iter().any(|n| n.contains("capped")));
}

#[test]
fn single_month_payoff() {
    let report = build_schedule(inputs("500", "0.06", Some("600"), None, d("2026-01-15")));
    assert_eq!(report.schedule.len(), 1);
    let only = &report.schedule[0];
    assert_eq!(num(&only.interest), dec("2.50"));
    assert_eq!(num(&only.principal), dec("500"));
    assert_eq!(num(&only.payment), dec("502.50"));
    assert_eq!(num(&only.balance_after), Decimal::ZERO);
}

#[test]
fn month_rollover_handles_leap_year() {
    let report = build_schedule(inputs("3000", "0", Some("1000"), Some(3), d("2024-01-31")));
    assert_eq!(report.schedule[0].due_date, d("2024-01-31"));
    assert_eq!(report.schedule[1].due_date, d("2024-02-29"));
    assert_eq!(report.schedule[2].due_date, d("2024-03-29"));
}

#[test]
fn month_rollover_handles_non_leap_year() {
    let report = build_schedule(inputs("3000", "0", Some("1000"), Some(3), d("2026-01-31")));
    assert_eq!(report.schedule[1].due_date, d("2026-02-28"));
}

#[test]
fn total_principal_equals_starting_balance() {
    let report = build_schedule(inputs("50000", "0.07", None, Some(60), d("2026-01-01")));
    let diff = (num(&report.total_principal) - dec("50000")).abs();
    assert!(diff < dec("1.0"), "principal sum drifted: {}", num(&report.total_principal));
}

// ─── further cases ───────────────────────────────────────────────────────

#[test]
fn calendar_helpers() {
    assert!(is_leap_year(2024));
    assert!(!is_leap_year(1900));
    assert!(is_leap_year(2000));
    assert!(is_leap_year(-4));
    assert_eq!(days_in_month(2023, 2), 28);
    assert_eq!(days_in_month(2024, 2), 29);
    assert_eq!(days_in_month(2024, 11), 30);
    assert_eq!(add_one_month(d("2025-12-31")), d("2026-01-31"));
    assert_eq!(add_one_month(d("2025-03-31")), d("2025-04-30"));
}

#[test]
fn zero_term_pays_off_at_once_with_a_note() {
    let report = build_schedule(inputs("700", "0.12", None, Some(0), d("2026-01-01")));
    assert_eq!(num(&report.monthly_payment), dec("700"));
    assert!(report.notes.iter().any(|n| n.contains("Term of zero months")));
    assert_eq!(report.schedule.len(), 2);
    assert_eq!(num(&report.schedule[0].interest), dec("7.00"));
}

#[test]
fn overflowing_inputs_give_nothing() {
    let huge = "79228162514264337593543950335";
    assert!(try_build_schedule(inputs(huge, "1000", Some("1"), None, d("2026-01-01"))).is_none());
    assert!(try_build_schedule(inputs("100", "0.05", Some("60"), None, d("2026-01-01"))).is_some());
}
