use mizan::plaid_ingest::{
    ingest_account_step, ingest_summary, map_plaid_investment_transactions, record_bulk_result, ActivityUpsert,
    LinkedAccount, PlaidMappingSummary, PlaidTransaction, PreparedActivity, PreparedBatch,
};

fn mapping() -> PlaidMappingSummary {
    PlaidMappingSummary { fetched: 3, mapped: 2, skipped_unknown_account: 1, needs_review: 0 }
}

fn buy(id: &str) -> PlaidTransaction {
    PlaidTransaction {
        investment_transaction_id: Some(id.to_string()),
        item_id: Some("item-1".to_string()),
        account_id: Some("pa".to_string()),
        plaid_type: Some("buy".to_string()),
        amount: Some("100".to_string()),
        quantity: Some("1".to_string()),
        price: Some("100".to_string()),
        fees: None,
        iso_currency_code: Some("USD".to_string()),
        unofficial_currency_code: None,
        transaction_date: Some("2026-05-15".to_string()),
        cancelled: Some(false),
        security_ticker_symbol: Some("AAPL".to_string()),
        security_name: None,
        security_type: Some("equity".to_string()),
        name: None,
    }
}

fn batch(ids: &[&str], assets_created: u32) -> PreparedBatch {
    let accounts = vec![LinkedAccount { id: "local-a".to_string(), provider_account_id: Some("pa".to_string()) }];
    let txns: Vec<PlaidTransaction> = ids.iter().map(|i| buy(i)).collect();
    let (mapped, _) = map_plaid_investment_transactions(&txns, &accounts);
    let prepared = mapped
        .into_iter()
        .enumerate()
        .map(|(k, m)| {
            let mut activity = m.activity;
            if k == 1 {
                activity.id = None;
            }
            PreparedActivity { activity, resolved_asset_id: Some(format!("asset-{k}")) }
        })
        .collect();
    PreparedBatch { prepared, assets_created }
}

#[test]
fn missing_account_is_recorded_and_adds_nothing() {
    let mut summary = ingest_summary(mapping());
    let mut upserts: Vec<ActivityUpsert> = Vec::new();
    ingest_account_step(&mut summary, &mut upserts, "gone", false, None);
    assert_eq!(summary.per_account_errors, vec![("gone".to_string(), "Account not found".to_string())]);
    assert!(upserts.is_empty());
    assert!(summary.accounts_touched.is_empty());
    assert_eq!(summary.assets_created, 0);
}

#[test]
fn failed_preparation_is_recorded_and_the_next_account_still_goes_through() {
    let mut summary = ingest_summary(mapping());
    let mut upserts: Vec<ActivityUpsert> = Vec::new();
    ingest_account_step(&mut summary, &mut upserts, "local-x", true, Some(Err("asset lookup failed".to_string())));
    assert_eq!(summary.per_account_errors, vec![("local-x".to_string(), "asset lookup failed".to_string())]);
    assert!(upserts.is_empty());
    ingest_account_step(&mut summary, &mut upserts, "local-a", true, Some(Ok(batch(&["t1", "t2"], 2))));
    assert_eq!(summary.per_account_errors.len(), 1);
    assert_eq!(summary.accounts_touched, vec!["local-a".to_string()]);
    assert_eq!(summary.assets_created, 2);
    assert_eq!(upserts.len(), 2);
}

#[test]
fn prepared_batch_appends_rows_with_their_ids() {
    let mut summary = ingest_summary(mapping());
    let mut upserts: Vec<ActivityUpsert> = Vec::new();
    ingest_account_step(&mut summary, &mut upserts, "local-a", true, Some(Ok(batch(&["t1"], 1))));
    ingest_account_step(&mut summary, &mut upserts, "local-a", true, Some(Ok(batch(&["t2", "t3"], 0))));
    assert_eq!(summary.assets_created, 1);
    assert_eq!(summary.accounts_touched, vec!["local-a".to_string(), "local-a".to_string()]);
    let ids: Vec<&str> = upserts.iter().map(|u| u.id.as_str()).collect();
    assert_eq!(ids, vec!["plaid-t1", "plaid-t2", "plaid-local-a-2"]);
    assert_eq!(upserts[2].asset_id.as_deref(), Some("asset-1"));
    assert_eq!(upserts[0].account_id, "local-a");
    assert_eq!(upserts[0].activity_type, "BUY");
    assert_eq!(upserts[0].source_record_id.as_deref(), Some("t1"));
    assert!(upserts.iter().all(|u| u.import_run_id.is_none()));
}

#[test]
fn bulk_result_fills_the_counts_only() {
    let mut summary = ingest_summary(mapping());
    let mut upserts: Vec<ActivityUpsert> = Vec::new();
    ingest_account_step(&mut summary, &mut upserts, "gone", false, None);
    record_bulk_result(&mut summary, 4, 2, 1);
    assert_eq!((summary.created, summary.updated, summary.skipped), (4, 2, 1));
    assert_eq!(summary.mapping.fetched, 3);
    assert_eq!(summary.per_account_errors.len(), 1);
}

#[test]
fn fresh_summary_is_empty() {
    let s = ingest_summary(mapping());
    assert_eq!((s.created, s.updated, s.skipped, s.assets_created), (0, 0, 0, 0));
    assert!(s.accounts_touched.is_empty() && s.per_account_errors.is_empty());
    assert_eq!(s.mapping.mapped, 2);
}

#[test]
fn row_type_is_lowered_before_it_is_classified() {
    let accounts = vec![LinkedAccount { id: "local-a".to_string(), provider_account_id: Some("pa".to_string()) }];
    let mut t = buy("t9");
    t.plaid_type = Some("SeLL".to_string());
    let (mapped, _) = map_plaid_investment_transactions(&vec![t], &accounts);
    assert_eq!(mapped[0].activity.activity_type, "SELL");
}
