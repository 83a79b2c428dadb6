use std::sync::Arc;

use mizan::accounts::Account;
use mizan::holdings::{AssetKind, Holding, Instrument};
use mizan::decimal::Dec;
use mizan::tools::delete_stock_position::{open_flags, ActivityRow, DeleteStockPositionArgs, DeleteStockPositionTool, StockPositionDeletion};
use mizan::tools::env::AiEnvironment;

struct MockEnvironment;

impl AiEnvironment for MockEnvironment {
    fn base_currency(&self) -> String {
        "USD".to_string()
    }
}

fn stock_holding(account_id: &str, asset_id: &str, symbol: &str) -> Holding {
    Holding {
        id: format!("h-{}-{}", account_id, asset_id),
        account_id: account_id.to_string(),
        instrument: Some(Instrument {
            id: asset_id.to_string(),
            symbol: symbol.to_string(),
            name: Some(format!("{} Inc", symbol)),
            notes: None,
        }),
        asset_kind: Some(AssetKind::Investment),
        local_currency: "USD".to_string(),
    }
}

fn activity(id: &str, account_id: &str, date: &str) -> ActivityRow {
    ActivityRow { id: id.to_string(), account_id: account_id.to_string(), date: date.to_string() }
}

fn account(id: &str, name: &str) -> Account {
    Account {
        id: id.to_string(),
        name: name.to_string(),
        account_type: "SECURITIES".to_string(),
        group: None,
        currency: "USD".to_string(),
        is_default: false,
        is_active: true,
        meta: None,
    }
}

fn args(asset_ref: &str) -> DeleteStockPositionArgs {
    DeleteStockPositionArgs { asset_ref: asset_ref.to_string(), account_ref: None, reason: None }
}

fn run(
    a: DeleteStockPositionArgs,
    holdings: &Vec<Holding>,
    activities: &Vec<ActivityRow>,
    accounts: &Vec<Account>,
) -> StockPositionDeletion {
    let open: Vec<bool> = holdings.iter().map(|_| true).collect();
    DeleteStockPositionTool::new(Arc::new(MockEnvironment)).build_output(a, holdings, &open, accounts, activities)
}

#[test]
fn resolves_by_ticker_in_single_account() {
    let out = run(
        args("AAPL"),
        &vec![stock_holding("acc1", "AAPL", "AAPL")],
        &vec![activity("act-1", "acc1", "2026-01-15T00:00:00Z")],
        &vec![account("acc1", "Brokerage")],
    );
    assert!(out.validation.is_valid);
    assert_eq!(out.target.as_ref().unwrap().symbol, "AAPL");
    assert_eq!(out.positions.len(), 1);
    assert_eq!(out.activity_ids, vec!["act-1"]);
}

#[test]
fn resolves_across_multiple_accounts() {
    let out = run(
        args("AAPL"),
        &vec![stock_holding("acc1", "AAPL", "AAPL"), stock_holding("acc2", "AAPL", "AAPL")],
        &vec![activity("act-1", "acc1", "2026-01-15T00:00:00Z"), activity("act-2", "acc2", "2026-02-10T00:00:00Z")],
        &vec![account("acc1", "IRA"), account("acc2", "Brokerage")],
    );
    assert!(out.validation.is_valid);
    assert_eq!(out.positions.len(), 2);
    assert_eq!(out.activity_ids.len(), 2);
    assert_eq!(out.activity_ids[0], "act-2");
    assert_eq!(out.activity_ids[1], "act-1");
    // Each holding is worth 9 000 in the base currency; the card's total is
    // the sum over the positions it lists.
    let market_value_base = [9_000.0_f64, 9_000.0_f64];
    let total_market_value_base: f64 = out.positions.iter().map(|p| market_value_base[p.holding]).sum();
    assert_eq!(total_market_value_base, 18_000.0);
}

#[test]
fn account_scope_filters_positions() {
    let mut a = args("AAPL");
    a.account_ref = Some("IRA".into());
    let out = run(
        a,
        &vec![stock_holding("acc1", "AAPL", "AAPL"), stock_holding("acc2", "AAPL", "AAPL")],
        &vec![activity("act-1", "acc1", "2026-01-15T00:00:00Z"), activity("act-2", "acc2", "2026-02-10T00:00:00Z")],
        &vec![account("acc1", "IRA"), account("acc2", "Brokerage")],
    );
    assert!(out.validation.is_valid);
    assert_eq!(out.positions.len(), 1);
    assert_eq!(out.positions[0].account_name, "IRA");
    assert_eq!(out.activity_ids, vec!["act-1"]);
}

#[test]
fn unknown_account_blocks_confirm() {
    let mut a = args("AAPL");
    a.account_ref = Some("nonexistent".into());
    let out = run(
        a,
        &vec![stock_holding("acc1", "AAPL", "AAPL")],
        &vec![activity("act-1", "acc1", "2026-01-15T00:00:00Z")],
        &vec![account("acc1", "Brokerage")],
    );
    assert!(!out.validation.is_valid);
    assert!(out.validation.warnings.iter().any(|w| w.contains("No account matching")));
}

#[test]
fn ambiguous_asset_blocks_confirm() {
    let holdings = vec![stock_holding("acc1", "PINS", "PINS"), stock_holding("acc1", "PIN", "PIN")];
    let accounts = vec![account("acc1", "Brokerage")];
    let out = run(args("PIN"), &holdings, &vec![], &accounts);
    assert!(out.validation.is_valid || out.validation.candidates.len() >= 1);
    let out2 = run(args("PI"), &holdings, &vec![], &accounts);
    assert!(!out2.validation.is_valid);
    assert_eq!(out2.validation.candidates.len(), 2);
}

#[test]
fn delete_stock_position_missing_ref_blocks_confirm() {
    let out = run(
        args(""),
        &vec![stock_holding("acc1", "AAPL", "AAPL")],
        &vec![activity("act-1", "acc1", "2026-01-15T00:00:00Z")],
        &vec![account("acc1", "Brokerage")],
    );
    assert!(!out.validation.is_valid);
    assert!(out.validation.warnings.iter().any(|w| w.contains("required")));
}

#[test]
fn unknown_asset_returns_actionable_warning() {
    let out = run(args("TSLA"), &vec![stock_holding("acc1", "AAPL", "AAPL")], &vec![], &vec![account("acc1", "Brokerage")]);
    assert!(!out.validation.is_valid);
    assert!(out.validation.warnings.iter().any(|w| w.contains("No tradable asset matching")));
}

#[test]
fn alternative_assets_are_filtered_out() {
    let mut prop = stock_holding("acc1", "house", "HOUSE");
    prop.asset_kind = Some(AssetKind::Property);
    let out = run(args("HOUSE"), &vec![prop], &vec![], &vec![account("acc1", "Personal")]);
    assert!(!out.validation.is_valid);
    assert!(out.validation.warnings.iter().any(|w| w.contains("No tradable asset matching")));
}

#[test]
fn warning_surfaces_cascade_blast_radius() {
    let mut a = args("AAPL");
    a.reason = Some("sold the rest".into());
    let out = run(
        a,
        &vec![stock_holding("acc1", "AAPL", "AAPL")],
        &vec![
            activity("act-1", "acc1", "2026-01-15T00:00:00Z"),
            activity("act-2", "acc1", "2026-03-20T00:00:00Z"),
            activity("act-3", "acc1", "2026-05-10T00:00:00Z"),
        ],
        &vec![account("acc1", "Brokerage")],
    );
    assert!(out.validation.is_valid);
    assert_eq!(out.activity_ids.len(), 3);
    assert_eq!(out.activity_ids[0], "act-3");
    assert!(out.validation.warnings.iter().any(|w| w.contains("3 activity rows")));
    assert_eq!(out.reason.as_deref(), Some("sold the rest"));
}

#[test]
fn position_without_activities_reports_snapshot_import() {
    let out = run(args("AAPL"), &vec![stock_holding("acc1", "AAPL", "AAPL")], &vec![], &vec![account("acc1", "Brokerage")]);
    assert_eq!(
        out.validation.warnings,
        vec![
            "This cascade-deletes 0 activity rows across 1 account. The position history is gone forever; if you only want to mark the position closed, use sell records instead.".to_string(),
            "The holding shows an open quantity but no activities matched in the search. The position may have been imported as a snapshot — manual cleanup needed; this tool can't unwind it.".to_string(),
        ]
    );
}

#[test]
fn scoped_account_without_position_names_the_account() {
    let mut a = args("AAPL");
    a.account_ref = Some("acc2".into());
    let out = run(
        a,
        &vec![stock_holding("acc1", "AAPL", "AAPL"), stock_holding("TOTAL", "AAPL", "AAPL")],
        &vec![],
        &vec![account("acc1", "Brokerage"), account("acc2", "Roth")],
    );
    assert!(out.validation.resolved);
    assert!(!out.validation.is_valid);
    assert_eq!(out.validation.warnings, vec!["AAPL resolves to a real asset but has no open positions in Roth.".to_string()]);
}

#[test]
fn first_holding_per_asset_ordered_by_id() {
    // Two rows of asset "b" and one of "a": candidates are a, b (by id).
    let holdings = vec![
        stock_holding("acc1", "b", "BETA"),
        stock_holding("acc2", "b", "BETA"),
        stock_holding("acc1", "a", "ALPHA"),
    ];
    let out = run(args("a"), &holdings, &vec![], &vec![]);
    // "a" is an exact asset id.
    assert_eq!(out.target.as_ref().unwrap().id, "a");
    let out = run(args("ta"), &holdings, &vec![], &vec![]);
    assert_eq!(out.target.as_ref().unwrap().id, "b");
    assert_eq!(out.positions.len(), 2);
    let out = run(args("Inc"), &holdings, &vec![], &vec![]);
    let ids: Vec<&str> = out.validation.candidates.iter().map(|c| c.id.as_str()).collect();
    assert_eq!(ids, vec!["a", "b"]);
}

#[test]
fn open_flags_mark_positive_quantities() {
    let q = vec![
        Dec { mantissa: 10, scale: 0 },
        Dec { mantissa: 0, scale: 2 },
        Dec { mantissa: -5, scale: 1 },
        Dec { mantissa: 1, scale: 28 },
    ];
    assert_eq!(open_flags(&q), vec![true, false, false, true]);
    assert!(open_flags(&Vec::new()).is_empty());
}
