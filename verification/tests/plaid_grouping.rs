use mizan::plaid_ingest::{group_by_account, map_plaid_investment_transactions, plaid_upsert_id, LinkedAccount, PlaidTransaction};
use mizan::ticker_symbols::{curated_ticker_symbols, InstrumentType};

fn account(id: &str, provider: &str) -> LinkedAccount {
    LinkedAccount { id: id.to_string(), provider_account_id: Some(provider.to_string()) }
}

fn txn(id: &str, plaid_account_id: &str, symbol: &str) -> PlaidTransaction {
    PlaidTransaction {
        investment_transaction_id: Some(id.to_string()),
        item_id: Some("item-1".to_string()),
        account_id: Some(plaid_account_id.to_string()),
        plaid_type: Some("buy".to_string()),
        amount: Some("100".to_string()),
        quantity: Some("1".to_string()),
        price: Some("100".to_string()),
        fees: None,
        iso_currency_code: Some("USD".to_string()),
        unofficial_currency_code: None,
        transaction_date: Some("2026-05-15".to_string()),
        cancelled: Some(false),
        security_ticker_symbol: Some(symbol.to_string()),
        security_name: None,
        security_type: Some("equity".to_string()),
        name: None,
    }
}

#[test]
fn grouping_keeps_first_seen_account_order_and_row_order() {
    let accounts = vec![account("local-a", "pa"), account("local-b", "pb")];
    let txns = vec![txn("t1", "pb", "AAPL"), txn("t2", "pa", "MSFT"), txn("t3", "pb", "TSLA"), txn("t4", "pa", "NVDA")];
    let (mapped, _) = map_plaid_investment_transactions(&txns, &accounts);
    let groups = group_by_account(mapped);
    assert_eq!(groups.len(), 2);
    assert_eq!(groups[0].0, "local-b");
    assert_eq!(groups[1].0, "local-a");
    let syms = |g: &Vec<mizan::plaid_ingest::NewActivity>| -> Vec<String> {
        g.iter().map(|a| a.asset.as_ref().and_then(|x| x.symbol.clone()).unwrap()).collect()
    };
    assert_eq!(syms(&groups[0].1), vec!["AAPL", "TSLA"]);
    assert_eq!(syms(&groups[1].1), vec!["MSFT", "NVDA"]);
}

#[test]
fn grouping_nothing_gives_no_groups() {
    assert!(group_by_account(Vec::new()).is_empty());
}

#[test]
fn upsert_id_prefers_the_activity_id() {
    assert_eq!(plaid_upsert_id(&Some("abc".to_string()), "local-1", 3), "abc");
    assert_eq!(plaid_upsert_id(&None, "local-1", 3), "plaid-local-1-3");
    assert_eq!(plaid_upsert_id(&None, "x", 0), "plaid-x-0");
}

#[test]
fn curated_ticker_lists_indices_then_commodities() {
    let v = curated_ticker_symbols();
    let symbols: Vec<&str> = v.iter().map(|c| c.symbol).collect();
    assert_eq!(symbols, vec!["SPX", "IXIC", "DJI", "BTCUSD", "XAUUSD", "CL"]);
    assert_eq!(v[0].label, "S&P 500");
    assert_eq!(v[3].instrument_type, InstrumentType::Crypto);
    assert_eq!(v[5].instrument_type, InstrumentType::Futures);
}
