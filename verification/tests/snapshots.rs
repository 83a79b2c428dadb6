use mizan::daily_brief::{DailyBrief, HoldingMover, InMemoryDailyBriefService, NetWorthDelta};
use mizan::dates::CalendarDate;
use mizan::decimal::Dec;
use mizan::net_worth_snapshot::{
    InMemoryNetWorthSnapshotService, NetWorthBreakdownEntry, NetWorthSnapshot, NetWorthSnapshotInput, SnapshotSource,
};
use rust_decimal::Decimal;
use std::str::FromStr;

fn may(day: u32) -> CalendarDate {
    CalendarDate { year: 2026, month: 5, day }
}

fn whole(n: i64) -> Dec {
    Dec::from_int(n)
}

fn fig(text: &str) -> Dec {
    let d = Decimal::from_str(text).unwrap();
    Dec { mantissa: d.mantissa(), scale: d.scale() }
}

fn num(d: &Dec) -> Decimal {
    Decimal::from_i128_with_scale(d.mantissa, d.scale)
}

fn sample(date: CalendarDate, assets: i64, liab: i64) -> NetWorthSnapshotInput {
    NetWorthSnapshotInput {
        snapshot_date: date,
        base_currency: "USD".to_string(),
        total_assets: whole(assets),
        total_liabilities: whole(liab),
        breakdown: vec![
            NetWorthBreakdownEntry { key: "SECURITIES".to_string(), value: whole(assets) },
            NetWorthBreakdownEntry { key: "LIABILITY".to_string(), value: whole(liab) },
        ],
        source: SnapshotSource::Scheduler,
    }
}

#[test]
fn service_upsert_inserts_then_replaces_same_day() {
    let mut svc = InMemoryNetWorthSnapshotService::new();
    let date = may(24);
    let first = svc.upsert(sample(date, 100_000, 20_000));
    assert_eq!(num(&first.net_worth), Decimal::from(80_000));
    assert_eq!(svc.len(), 1);
    let second = svc.upsert(sample(date, 110_000, 20_000));
    assert_eq!(num(&second.net_worth), Decimal::from(90_000));
    assert_eq!(svc.len(), 1, "same-date upsert should replace, not append");
}

#[test]
fn range_returns_inclusive_window_sorted() {
    let mut svc = InMemoryNetWorthSnapshotService::new();
    for day in [14, 10, 12, 11, 13] {
        svc.upsert(sample(may(day), day as i64 * 1_000, 0));
    }
    let got = svc.range(may(11), may(13));
    assert_eq!(got.len(), 3);
    assert_eq!(got[0].snapshot_date.day, 11);
    assert_eq!(got[2].snapshot_date.day, 13);
}

#[test]
fn latest_returns_most_recent() {
    let mut svc = InMemoryNetWorthSnapshotService::new();
    for day in [10, 12, 11] {
        svc.upsert(sample(may(day), 1_000, 0));
    }
    let latest = svc.latest().unwrap();
    assert_eq!(latest.snapshot_date.day, 12);
}

#[test]
fn get_returns_exact_date() {
    let mut svc = InMemoryNetWorthSnapshotService::new();
    svc.upsert(sample(may(24), 50_000, 10_000));
    let got = svc.get(may(24)).unwrap();
    assert_eq!(num(&got.net_worth), Decimal::from(40_000));
    assert!(svc.get(may(25)).is_none());
}

#[test]
fn net_worth_derives_from_inputs() {
    let mut svc = InMemoryNetWorthSnapshotService::new();
    let s = svc.upsert(sample(may(24), 250_000, 100_000));
    assert_eq!(num(&s.total_assets), Decimal::from(250_000));
    assert_eq!(num(&s.total_liabilities), Decimal::from(100_000));
    assert_eq!(num(&s.net_worth), Decimal::from(150_000));
    assert_eq!(s.breakdown.len(), 2);
}

#[test]
fn backfilled_snapshot_is_marked_backfill() {
    let s = NetWorthSnapshot::backfilled(sample(may(1), 10, 30));
    assert_eq!(s.source, SnapshotSource::Backfill);
    assert_eq!(num(&s.net_worth), Decimal::from(-20));
    assert_eq!(SnapshotSource::ManualTrigger.as_str(), "manual_trigger");
    assert_eq!(s.source.as_str(), "backfill");
}

fn sample_brief(date: CalendarDate) -> DailyBrief {
    let nw = NetWorthDelta::new(whole(100_000), whole(101_500));
    DailyBrief::new(date, "USD", nw).with_movers(vec![HoldingMover {
        asset_id: "SEC:AAPL:XNAS".into(),
        display_name: "Apple".into(),
        previous_value: whole(15_000),
        current_value: whole(15_500),
        delta: whole(500),
        percent: Some(fig("0.033")),
        currency: "USD".into(),
    }])
}

#[test]
fn brief_upsert_inserts_then_replaces_same_day() {
    let mut svc = InMemoryDailyBriefService::new();
    let date = may(24);
    svc.upsert(sample_brief(date));
    assert_eq!(svc.len(), 1);
    let mut b = sample_brief(date);
    b.read = true;
    svc.upsert(b);
    assert_eq!(svc.len(), 1);
    assert!(svc.get(date).unwrap().read);
}

#[test]
fn latest_returns_newest() {
    let mut svc = InMemoryDailyBriefService::new();
    for day in [10, 11, 12] {
        svc.upsert(sample_brief(may(day)));
    }
    assert_eq!(svc.latest().unwrap().brief_date.day, 12);
}

#[test]
fn recent_caps_at_limit() {
    let mut svc = InMemoryDailyBriefService::new();
    for day in 1..=10 {
        svc.upsert(sample_brief(may(day)));
    }
    let recent = svc.recent(3);
    assert_eq!(recent.len(), 3);
    assert_eq!(recent[0].brief_date.day, 10);
    assert_eq!(recent[2].brief_date.day, 8);
}

#[test]
fn mark_read_flips_flag() {
    let mut svc = InMemoryDailyBriefService::new();
    let date = may(24);
    svc.upsert(sample_brief(date));
    svc.upsert(sample_brief(may(23)));
    assert!(!svc.get(date).unwrap().read);
    svc.mark_read(date);
    assert!(svc.get(date).unwrap().read);
    assert!(!svc.get(may(23)).unwrap().read);
    assert_eq!(svc.len(), 2);
}

#[test]
fn is_actionable_filters_no_op_days() {
    let date = may(24);
    let empty = DailyBrief::new(date, "USD", NetWorthDelta::new(whole(100_000), whole(100_000)));
    assert!(!empty.is_actionable());
    let real = DailyBrief::new(date, "USD", NetWorthDelta::new(whole(100_000), whole(100_500)));
    assert!(real.is_actionable());
}

#[test]
fn net_worth_delta_handles_zero_baseline() {
    let nw = NetWorthDelta::new(whole(0), whole(1_000));
    assert_eq!(num(&nw.absolute), Decimal::from(1_000));
    assert!(nw.percent.is_none());
}

#[test]
fn net_worth_delta_percent_is_relative_to_baseline() {
    let nw = NetWorthDelta::new(whole(100_000), whole(101_250));
    assert_eq!(num(&nw.percent.unwrap()), Decimal::from_str("0.0125").unwrap());
}
