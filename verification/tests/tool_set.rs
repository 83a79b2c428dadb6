use std::sync::Arc;

use mizan::holdings::{AssetKind, Holding, Instrument};
use mizan::tools::env::AiEnvironment;
use mizan::tools::holdings::{default_account_id, default_view_mode, holding_type_label, HoldingType};
use mizan::tools::research_asset::{history_window, ResearchAssetArgs, ResearchAssetTool};
use mizan::tools::ToolSet;

struct MockEnvironment;

impl MockEnvironment {
    fn new() -> Self {
        MockEnvironment
    }
}

impl AiEnvironment for MockEnvironment {
    fn base_currency(&self) -> String {
        "USD".to_string()
    }
}

#[test]
fn test_tool_set_creation() {
    let env = Arc::new(MockEnvironment::new());
    let _tools = ToolSet::new(env, "USD".to_string());
}

#[test]
fn holdings_listing_skips_cash_and_caps() {
    let env = Arc::new(MockEnvironment::new());
    let tools = ToolSet::new(env, "EUR".to_string());
    assert_eq!(tools.holdings.currency(), "EUR");
    let types = vec![HoldingType::Cash, HoldingType::Security, HoldingType::AlternativeAsset, HoldingType::Security];
    let sel = tools.holdings.select(&types, 2);
    assert_eq!(sel.positions, vec![1, 2]);
    assert_eq!(sel.truncated, Some(true));
    assert_eq!(sel.original_count, Some(4));
    // Cash rows alone already make the listing shorter than the fetch.
    let sel = tools.holdings.select(&vec![HoldingType::Cash, HoldingType::Security], 10);
    assert_eq!(sel.positions, vec![1]);
    assert_eq!(sel.truncated, Some(true));
    let sel = tools.holdings.select(&vec![HoldingType::Security], 10);
    assert_eq!(sel.truncated, None);
    assert_eq!(sel.original_count, None);
    assert_eq!(default_account_id(), "TOTAL");
    assert_eq!(default_view_mode(), "treemap");
    assert_eq!(holding_type_label(HoldingType::AlternativeAsset), "AlternativeAsset");
}

fn held(id: &str, symbol: &str, name: Option<&str>) -> Holding {
    Holding {
        id: format!("h-{}", id),
        account_id: "acc".to_string(),
        instrument: Some(Instrument { id: id.to_string(), symbol: symbol.to_string(), name: name.map(|n| n.to_string()), notes: None }),
        asset_kind: Some(AssetKind::Investment),
        local_currency: "USD".to_string(),
    }
}

#[test]
fn research_matches_portfolio_before_ticker() {
    let tool = ResearchAssetTool::new(Arc::new(MockEnvironment::new()));
    let holdings = vec![held("a1", "AAPL", Some("Apple Inc")), held("n1", "NVDA", Some("Nvidia"))];
    let args = ResearchAssetArgs { asset_ref: " apple ".into(), history_days: None };
    let (found, id) = tool.identify(&args, &holdings, "CAD");
    assert_eq!(found, Some(0));
    assert_eq!(id.symbol, "AAPL");
    assert_eq!(id.asset_id.as_deref(), Some("a1"));
    assert_eq!(id.asset_kind.as_deref(), Some("OTHER"));
    let args = ResearchAssetArgs { asset_ref: "TSLA".into(), history_days: Some(10) };
    let (found, id) = tool.identify(&args, &holdings, "CAD");
    assert_eq!(found, None);
    assert_eq!(id.symbol, "TSLA");
    assert_eq!(id.currency, "CAD");
    assert_eq!(
        tool.warnings("TSLA", &args, true, false),
        vec![
            "No historical quotes found for \"TSLA\". Price + technicals will be empty; the LLM should answer from portfolio context only.".to_string(),
            "\"TSLA\" doesn't match any holding in the portfolio — answering as general research, not as personalised advice.".to_string(),
        ]
    );
    assert_eq!(history_window(Some(10)), 30);
    assert_eq!(history_window(None), 365);
    assert_eq!(history_window(Some(4000)), 1825);
}
