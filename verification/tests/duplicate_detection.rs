use mizan::assets::duplicate_detection::{find_duplicate_asset_groups, AssetRecord, DuplicateReason};

fn equity(id: &str, symbol: &str, mic: Option<&str>, ccy: &str) -> AssetRecord {
    AssetRecord {
        id: id.to_string(),
        isin: None,
        instrument_exchange_mic: mic.map(|m| m.to_string()),
        instrument_symbol: Some(symbol.to_string()),
        instrument_type: Some("Equity".to_string()),
        quote_ccy: ccy.to_string(),
    }
}

fn with_isin(mut asset: AssetRecord, isin: &str) -> AssetRecord {
    asset.isin = Some(isin.to_string());
    asset
}

fn is_ambiguous(r: &DuplicateReason) -> bool {
    matches!(r, DuplicateReason::AmbiguousExchange)
}

fn isin_of(r: &DuplicateReason) -> Option<&str> {
    match r {
        DuplicateReason::SharedIsin { isin } => Some(isin.as_str()),
        DuplicateReason::AmbiguousExchange => None,
    }
}

#[test]
fn no_assets_no_groups() {
    assert!(find_duplicate_asset_groups(&Vec::new()).is_empty());
}

#[test]
fn distinct_instruments_are_not_grouped() {
    let assets = vec![equity("1", "AAPL", Some("XNAS"), "USD"), equity("2", "MSFT", Some("XNAS"), "USD")];
    assert!(find_duplicate_asset_groups(&assets).is_empty());
}

#[test]
fn missing_exchange_flags_ambiguous_duplicate() {
    let assets = vec![equity("1", "AAPL", Some("XNAS"), "USD"), equity("2", "AAPL", None, "USD")];
    let groups = find_duplicate_asset_groups(&assets);
    assert_eq!(groups.len(), 1);
    assert_eq!(groups[0].asset_ids, vec!["1", "2"]);
    assert_eq!(groups[0].reasons.len(), 1);
    assert!(is_ambiguous(&groups[0].reasons[0]));
}

#[test]
fn different_explicit_exchanges_are_not_merged() {
    let assets = vec![equity("1", "AAPL", Some("XNAS"), "USD"), equity("2", "AAPL", Some("XLON"), "USD")];
    assert!(find_duplicate_asset_groups(&assets).is_empty());
}

#[test]
fn ambiguous_no_mic_not_attached_when_multiple_exchanges() {
    let assets = vec![
        equity("1", "AAPL", Some("XNAS"), "USD"),
        equity("2", "AAPL", Some("XLON"), "USD"),
        equity("3", "AAPL", None, "USD"),
    ];
    assert!(find_duplicate_asset_groups(&assets).is_empty());
}

#[test]
fn different_quote_currencies_are_not_merged() {
    let assets = vec![equity("1", "AAPL", None, "USD"), equity("2", "AAPL", None, "EUR")];
    assert!(find_duplicate_asset_groups(&assets).is_empty());
}

#[test]
fn shared_isin_flags_duplicate_even_with_different_keys() {
    let assets = vec![
        with_isin(equity("1", "SHOP", Some("XTSE"), "CAD"), "CA82509L1076"),
        with_isin(equity("2", "SHOP.TO", None, "CAD"), "ca82509l1076"),
    ];
    let groups = find_duplicate_asset_groups(&assets);
    assert_eq!(groups.len(), 1);
    assert_eq!(groups[0].asset_ids, vec!["1", "2"]);
    assert_eq!(groups[0].reasons.len(), 1);
    assert_eq!(isin_of(&groups[0].reasons[0]), Some("CA82509L1076"));
}

#[test]
fn transitive_group_carries_both_reasons() {
    let assets = vec![
        with_isin(equity("1", "FOO", Some("XNAS"), "USD"), "US1111111111"),
        with_isin(equity("2", "FOO", None, "USD"), "US1111111111"),
        equity("3", "FOO", Some("XNAS"), "USD"),
    ];
    let groups = find_duplicate_asset_groups(&assets);
    assert_eq!(groups.len(), 1);
    assert_eq!(groups[0].asset_ids, vec!["1", "2", "3"]);
    assert!(groups[0].reasons.iter().any(|r| isin_of(r) == Some("US1111111111")));
    assert!(groups[0].reasons.iter().any(is_ambiguous));
}

#[test]
fn output_is_deterministic_and_sorted() {
    let assets = vec![equity("z", "AAPL", None, "USD"), equity("a", "AAPL", Some("XNAS"), "USD")];
    let groups = find_duplicate_asset_groups(&assets);
    assert_eq!(groups.len(), 1);
    assert_eq!(groups[0].asset_ids, vec!["a", "z"]);
}

#[test]
fn groups_are_sorted_by_their_ids() {
    let assets = vec![
        equity("m", "MSFT", None, "USD"),
        equity("b", "AAPL", None, "USD"),
        equity("k", "MSFT", Some("XNAS"), "USD"),
        equity("c", "AAPL", Some("XNAS"), "USD"),
    ];
    let groups = find_duplicate_asset_groups(&assets);
    assert_eq!(groups.len(), 2);
    assert_eq!(groups[0].asset_ids, vec!["b", "c"]);
    assert_eq!(groups[1].asset_ids, vec!["k", "m"]);
    let again = find_duplicate_asset_groups(&assets);
    assert_eq!(again[0].asset_ids, groups[0].asset_ids);
}

#[test]
fn same_exchange_without_missing_exchange_is_unexplained() {
    // Two rows on the same exchange are tied, but neither reason applies.
    let assets = vec![equity("1", "AAPL", Some("XNAS"), "USD"), equity("2", " aapl ", Some("xnas"), "usd")];
    assert!(find_duplicate_asset_groups(&assets).is_empty());
}

#[test]
fn shared_isins_are_sorted_and_listed_once() {
    let assets = vec![
        with_isin(equity("1", "A", None, "USD"), "US2"),
        with_isin(equity("2", "B", Some("XNAS"), "EUR"), "US2"),
        with_isin(equity("3", "C", Some("XNAS"), "GBP"), "US1"),
        with_isin(equity("4", "D", Some("XLON"), "JPY"), "us1"),
        with_isin(equity("5", "A", Some("XNAS"), "USD"), "US1"),
    ];
    let groups = find_duplicate_asset_groups(&assets);
    assert_eq!(groups.len(), 1);
    let isins: Vec<Option<&str>> = groups[0].reasons.iter().map(isin_of).collect();
    assert_eq!(isins, vec![Some("US1"), Some("US2"), None]);
}

#[test]
fn groups_are_disjoint_and_strictly_ascending() {
    let assets = vec![
        equity("z1", "MSFT", None, "usd"),
        equity("b1", "AAPL", None, "USD"),
        equity("z2", "msft", Some("XNAS"), "USD"),
        equity("a2", "aapl", Some("XNAS"), "usd"),
        equity("m", "TSLA", None, "USD"),
    ];
    let groups = find_duplicate_asset_groups(&assets);
    assert_eq!(groups.len(), 2);
    assert_eq!(groups[0].asset_ids, vec!["a2", "b1"]);
    assert_eq!(groups[1].asset_ids, vec!["z1", "z2"]);
    assert!(groups[0].asset_ids < groups[1].asset_ids);
    for id in &groups[0].asset_ids {
        assert!(!groups[1].asset_ids.contains(id));
    }
}

#[test]
fn groups_do_not_depend_on_the_order_of_the_assets() {
    let assets = vec![
        equity("z1", "MSFT", None, "usd"),
        with_isin(equity("b1", "AAPL", None, "USD"), "US0378331005"),
        equity("z2", "msft", Some("XNAS"), "USD"),
        with_isin(equity("a2", "aapl", Some("XNAS"), "usd"), "US0378331005"),
        equity("m", "TSLA", None, "USD"),
    ];
    let shape = |v: &Vec<AssetRecord>| -> Vec<(Vec<String>, Vec<Option<String>>)> {
        find_duplicate_asset_groups(v)
            .iter()
            .map(|g| (g.asset_ids.clone(), g.reasons.iter().map(|r| isin_of(r).map(str::to_string)).collect()))
            .collect()
    };
    let forward = shape(&assets);
    let mut reversed: Vec<AssetRecord> = Vec::new();
    for a in assets.iter().rev() {
        reversed.push(AssetRecord {
            id: a.id.clone(),
            isin: a.isin.clone(),
            instrument_exchange_mic: a.instrument_exchange_mic.clone(),
            instrument_symbol: a.instrument_symbol.clone(),
            instrument_type: a.instrument_type.clone(),
            quote_ccy: a.quote_ccy.clone(),
        });
    }
    assert_eq!(shape(&reversed), forward);
    assert_eq!(forward.len(), 2);
}
