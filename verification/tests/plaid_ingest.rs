use mizan::plaid_ingest::{
    map_plaid_investment_transactions, ActivityStatus, DecimalValue, LinkedAccount, PlaidTransaction,
};
use rust_decimal::Decimal;

fn fake_account(id: &str, provider_account_id: Option<&str>) -> LinkedAccount {
    LinkedAccount { id: id.to_string(), provider_account_id: provider_account_id.map(str::to_string) }
}

fn fake_txn(
    plaid_type: &str,
    plaid_account_id: &str,
    symbol: Option<&str>,
    amount: &str,
    quantity: Option<&str>,
    price: Option<&str>,
) -> PlaidTransaction {
    PlaidTransaction {
        investment_transaction_id: Some(format!("tx-{plaid_type}-{plaid_account_id}")),
        item_id: Some("item-1".to_string()),
        account_id: Some(plaid_account_id.to_string()),
        plaid_type: Some(plaid_type.to_string()),
        amount: Some(amount.to_string()),
        quantity: quantity.map(str::to_string),
        price: price.map(str::to_string),
        fees: None,
        iso_currency_code: Some("USD".to_string()),
        unofficial_currency_code: None,
        transaction_date: Some("2026-05-15".to_string()),
        cancelled: Some(false),
        security_ticker_symbol: symbol.map(str::to_string),
        security_name: symbol.map(|s| format!("{s} Inc")),
        security_type: Some("equity".to_string()),
        name: Some(format!("test {plaid_type}")),
    }
}

fn dec(d: Option<DecimalValue>) -> Option<Decimal> {
    d.map(|v| Decimal::from_i128_with_scale(v.mantissa, v.scale))
}

#[test]
fn maps_buy_with_symbol_to_buy_with_asset_input() {
    let accounts = vec![fake_account("local-1", Some("plaid-acct-1"))];
    let txn = fake_txn("buy", "plaid-acct-1", Some("AAPL"), "1500.00", Some("10"), Some("150"));
    let (mapped, summary) = map_plaid_investment_transactions(&vec![txn], &accounts);
    assert_eq!(mapped.len(), 1);
    assert_eq!(summary.mapped, 1);
    assert_eq!(summary.needs_review, 0);
    let m = &mapped[0];
    assert_eq!(m.local_account_id, "local-1");
    assert_eq!(m.activity.activity_type, "BUY");
    assert_eq!(m.activity.asset.as_ref().and_then(|a| a.symbol.clone()), Some("AAPL".to_string()));
    assert_eq!(dec(m.activity.quantity), Some(Decimal::from(10)));
    assert_eq!(dec(m.activity.unit_price), Some(Decimal::from(150)));
    assert_eq!(dec(m.activity.amount), Some(Decimal::from(1500)));
    assert_eq!(m.activity.source_system.as_deref(), Some("PLAID"));
}

#[test]
fn maps_sell_with_negative_plaid_amount_to_unsigned_sell_amount() {
    let accounts = vec![fake_account("local-1", Some("plaid-acct-1"))];
    let txn = fake_txn("sell", "plaid-acct-1", Some("AAPL"), "-2000.00", Some("10"), Some("200"));
    let (mapped, _) = map_plaid_investment_transactions(&vec![txn], &accounts);
    assert_eq!(mapped[0].activity.activity_type, "SELL");
    assert_eq!(dec(mapped[0].activity.amount), Some(Decimal::from(2000)));
}

#[test]
fn cash_positive_amount_maps_to_withdrawal_negative_to_deposit() {
    let accounts = vec![fake_account("local-1", Some("plaid-acct-1"))];
    let withdraw = fake_txn("cash", "plaid-acct-1", None, "500.00", None, None);
    let deposit = fake_txn("cash", "plaid-acct-1", None, "-500.00", None, None);
    let (mapped, _) = map_plaid_investment_transactions(&vec![withdraw, deposit], &accounts);
    assert_eq!(mapped[0].activity.activity_type, "WITHDRAWAL");
    assert_eq!(mapped[1].activity.activity_type, "DEPOSIT");
}

#[test]
fn dividend_with_symbol_binds_asset_dividend_without_symbol_does_not() {
    let accounts = vec![fake_account("local-1", Some("plaid-acct-1"))];
    let with = fake_txn("dividend", "plaid-acct-1", Some("AAPL"), "-25", None, None);
    let without = fake_txn("dividend", "plaid-acct-1", None, "-10", None, None);
    let (mapped, _) = map_plaid_investment_transactions(&vec![with, without], &accounts);
    assert_eq!(mapped[0].activity.activity_type, "DIVIDEND");
    assert!(mapped[0].activity.asset.is_some());
    assert_eq!(mapped[1].activity.activity_type, "DIVIDEND");
    assert!(mapped[1].activity.asset.is_none());
}

#[test]
fn buy_without_symbol_is_flagged_needs_review() {
    let accounts = vec![fake_account("local-1", Some("plaid-acct-1"))];
    let txn = fake_txn("buy", "plaid-acct-1", None, "1500.00", Some("10"), Some("150"));
    let (mapped, summary) = map_plaid_investment_transactions(&vec![txn], &accounts);
    assert_eq!(summary.needs_review, 1);
    assert_eq!(mapped[0].activity.needs_review, Some(true));
    assert!(mapped[0].activity.notes.as_deref().unwrap().contains("no security symbol"));
}

#[test]
fn unknown_plaid_account_is_skipped_with_summary_increment() {
    let accounts = vec![fake_account("local-1", Some("plaid-acct-other"))];
    let txn = fake_txn("buy", "plaid-acct-1", Some("AAPL"), "1500.00", Some("10"), Some("150"));
    let (mapped, summary) = map_plaid_investment_transactions(&vec![txn], &accounts);
    assert!(mapped.is_empty());
    assert_eq!(summary.skipped_unknown_account, 1);
}

#[test]
fn cancelled_flag_propagates_to_void_status() {
    let accounts = vec![fake_account("local-1", Some("plaid-acct-1"))];
    let mut txn = fake_txn("buy", "plaid-acct-1", Some("AAPL"), "1500.00", Some("10"), Some("150"));
    txn.cancelled = Some(true);
    let (mapped, _) = map_plaid_investment_transactions(&vec![txn], &accounts);
    assert!(matches!(mapped[0].activity.status, Some(ActivityStatus::Void)));
}

#[test]
fn unmapped_type_lands_as_unknown_with_needs_review() {
    let accounts = vec![fake_account("local-1", Some("plaid-acct-1"))];
    let mut txn = fake_txn("buy", "plaid-acct-1", None, "100", None, None);
    txn.plaid_type = Some("some_future_type".to_string());
    let (mapped, summary) = map_plaid_investment_transactions(&vec![txn], &accounts);
    assert_eq!(mapped[0].activity.activity_type, "UNKNOWN");
    assert_eq!(summary.needs_review, 1);
}

#[test]
fn noon_utc_anchoring_on_bare_date() {
    let accounts = vec![fake_account("local-1", Some("plaid-acct-1"))];
    let txn = fake_txn("buy", "plaid-acct-1", Some("AAPL"), "100", Some("1"), Some("100"));
    let (mapped, _) = map_plaid_investment_transactions(&vec![txn], &accounts);
    assert!(mapped[0].activity.activity_date.starts_with("2026-05-15T12:00:00"));
}

// ─── further cases ───────────────────────────────────────────────────────

#[test]
fn transfer_sign_decides_direction_and_zero_is_flagged() {
    let accounts = vec![fake_account("local-1", Some("p1"))];
    let out = fake_txn("transfer", "p1", None, "40", None, None);
    let mut inn = fake_txn("transfer", "p1", None, "-40", None, None);
    inn.investment_transaction_id = Some("tx-in".to_string());
    let mut zero = fake_txn("transfer", "p1", None, "0.00", None, None);
    zero.investment_transaction_id = Some("tx-zero".to_string());
    zero.name = None;
    let (mapped, summary) = map_plaid_investment_transactions(&vec![out, inn, zero], &accounts);
    assert_eq!(mapped[0].activity.activity_type, "TRANSFER_OUT");
    assert_eq!(mapped[1].activity.activity_type, "TRANSFER_IN");
    assert_eq!(mapped[2].activity.activity_type, "UNKNOWN");
    assert_eq!(mapped[2].activity.notes.as_deref(), Some("Transfer with zero amount"));
    assert_eq!(summary.needs_review, 1);
}

#[test]
fn notes_join_reason_and_name() {
    let accounts = vec![fake_account("local-1", Some("p1"))];
    let txn = fake_txn("sell", "p1", Some(""), "10", None, None);
    let (mapped, _) = map_plaid_investment_transactions(&vec![txn], &accounts);
    assert_eq!(mapped[0].activity.notes.as_deref(), Some("SELL with no security symbol: test sell"));
    assert!(mapped[0].activity.asset.is_none());
}

#[test]
fn row_without_id_or_date_or_account_is_dropped() {
    let accounts = vec![fake_account("local-1", Some("p1"))];
    let mut no_id = fake_txn("fee", "p1", None, "1", None, None);
    no_id.investment_transaction_id = None;
    let mut bad_date = fake_txn("fee", "p1", None, "1", None, None);
    bad_date.transaction_date = Some("15/05/2026".to_string());
    let mut no_account = fake_txn("fee", "p1", None, "1", None, None);
    no_account.account_id = None;
    let (mapped, summary) = map_plaid_investment_transactions(&vec![no_id, bad_date, no_account], &accounts);
    assert!(mapped.is_empty());
    assert_eq!(summary.fetched, 3);
    assert_eq!(summary.mapped, 0);
    assert_eq!(summary.skipped_unknown_account, 0);
}

#[test]
fn ids_currency_and_last_linked_account() {
    let accounts = vec![fake_account("first", Some("p1")), fake_account("second", Some("p1"))];
    let mut txn = fake_txn("FEE", "p1", None, "2.50", None, None);
    txn.iso_currency_code = None;
    txn.unofficial_currency_code = Some("BTC".to_string());
    txn.fees = Some("0.10".to_string());
    let (mapped, _) = map_plaid_investment_transactions(&vec![txn], &accounts);
    let a = &mapped[0].activity;
    assert_eq!(mapped[0].local_account_id, "second");
    assert_eq!(a.activity_type, "FEE");
    assert_eq!(a.id.as_deref(), Some("plaid-tx-FEE-p1"));
    assert_eq!(a.source_record_id.as_deref(), Some("tx-FEE-p1"));
    assert_eq!(a.source_group_id.as_deref(), Some("item-1"));
    assert_eq!(a.currency, "BTC");
    assert_eq!(dec(a.fee), Some(Decimal::new(10, 2)));
    assert!(matches!(a.status, Some(ActivityStatus::Posted)));
}
