use std::sync::Arc;

use mizan::holdings::{AssetKind, Holding, Instrument};
use mizan::tools::delete_alternative_asset::{snapshot, DeleteAlternativeAssetArgs, DeleteAlternativeAssetTool};
use mizan::tools::delete_liability::{DeleteLiabilityArgs, DeleteLiabilityTool};
use mizan::tools::env::AiEnvironment;

struct MockEnvironment;

impl AiEnvironment for MockEnvironment {
    fn base_currency(&self) -> String {
        "USD".to_string()
    }
}

fn holding(asset_id: &str, name: &str, kind: AssetKind) -> Holding {
    Holding {
        id: format!("h-{}", asset_id),
        account_id: "TOTAL".to_string(),
        instrument: Some(Instrument {
            id: asset_id.to_string(),
            symbol: asset_id.to_string(),
            name: Some(name.to_string()),
            notes: None,
        }),
        asset_kind: Some(kind),
        local_currency: "USD".to_string(),
    }
}

fn liability_holding(asset_id: &str, name: &str) -> Holding {
    holding(asset_id, name, AssetKind::Liability)
}

fn alt_holding(asset_id: &str, name: &str, kind: AssetKind) -> Holding {
    holding(asset_id, name, kind)
}

fn liability_tool() -> DeleteLiabilityTool<MockEnvironment> {
    DeleteLiabilityTool::new(Arc::new(MockEnvironment))
}

fn alt_tool() -> DeleteAlternativeAssetTool<MockEnvironment> {
    DeleteAlternativeAssetTool::new(Arc::new(MockEnvironment))
}

fn target_id(holdings: &[Holding], target: Option<usize>) -> String {
    holdings[target.unwrap()].instrument.as_ref().unwrap().id.clone()
}

// ─── delete_liability ────────────────────────────────────────────────────

#[test]
fn resolves_by_asset_id() {
    let holdings = vec![liability_holding("loan-1", "Car loan")];
    let out = liability_tool().build_output(DeleteLiabilityArgs { liability_ref: "loan-1".into(), reason: None }, &holdings);
    assert!(out.validation.is_valid);
    assert!(out.validation.resolved);
    assert_eq!(target_id(&holdings, out.target), "loan-1");
    assert!(out.validation.warnings.iter().any(|w| w.contains("irreversible")));
}

#[test]
fn resolves_by_name_substring() {
    let holdings = vec![liability_holding("m1", "Bank Mortgage 2027")];
    let out = liability_tool().build_output(
        DeleteLiabilityArgs { liability_ref: "mortgage".into(), reason: Some("refinanced".into()) },
        &holdings,
    );
    assert!(out.validation.is_valid);
    assert_eq!(target_id(&holdings, out.target), "m1");
    assert_eq!(out.reason.as_deref(), Some("refinanced"));
}

#[test]
fn delete_liability_ambiguous_match_blocks_confirm() {
    let holdings = vec![liability_holding("l1", "Mortgage A"), liability_holding("l2", "Mortgage B")];
    let out = liability_tool().build_output(DeleteLiabilityArgs { liability_ref: "mortgage".into(), reason: None }, &holdings);
    assert!(!out.validation.is_valid);
    assert_eq!(out.validation.candidates.len(), 2);
}

#[test]
fn delete_liability_missing_ref_blocks_confirm() {
    let holdings = vec![liability_holding("l1", "Loan")];
    let out = liability_tool().build_output(DeleteLiabilityArgs { liability_ref: "  ".into(), reason: None }, &holdings);
    assert!(!out.validation.is_valid);
    assert!(out.validation.warnings.iter().any(|w| w.contains("required")));
}

#[test]
fn delete_liability_unknown_ref_returns_actionable_warning() {
    let holdings = vec![liability_holding("l1", "Car loan")];
    let out = liability_tool().build_output(DeleteLiabilityArgs { liability_ref: "house".into(), reason: None }, &holdings);
    assert!(!out.validation.is_valid);
    assert!(out.validation.warnings.iter().any(|w| w.contains("No liability matching")));
}

#[test]
fn non_liability_assets_are_ignored() {
    let mut equity = liability_holding("eq-1", "AAPL");
    equity.asset_kind = Some(AssetKind::Investment);
    let holdings = vec![equity];
    let out = liability_tool().build_output(DeleteLiabilityArgs { liability_ref: "AAPL".into(), reason: None }, &holdings);
    assert!(!out.validation.is_valid);
    assert!(out.validation.warnings.iter().any(|w| w.contains("No liability matching")));
}

#[test]
fn liability_candidates_are_positions_in_the_full_list() {
    let mut equity = liability_holding("eq-1", "Mortgage REIT");
    equity.asset_kind = Some(AssetKind::Investment);
    let holdings = vec![equity, liability_holding("l1", "Mortgage A"), liability_holding("l2", "Mortgage B")];
    let out = liability_tool().build_output(DeleteLiabilityArgs { liability_ref: "MORTGAGE".into(), reason: None }, &holdings);
    assert_eq!(out.validation.candidates, vec![1, 2]);
    assert_eq!(
        out.validation.warnings,
        vec!["\"MORTGAGE\" matched 2 liabilities. Ask the user which one they mean before retrying.".to_string()]
    );
}

// ─── delete_alternative_asset ────────────────────────────────────────────

#[test]
fn resolves_property_by_name() {
    let holdings = vec![alt_holding("p1", "Lake cabin", AssetKind::Property)];
    let out = alt_tool().build_output(
        DeleteAlternativeAssetArgs { asset_ref: "Lake cabin".into(), reason: Some("sold".into()) },
        &holdings,
    );
    assert!(out.validation.is_valid);
    let target = snapshot(&holdings[out.target.unwrap()]);
    assert_eq!(target.id, "p1");
    assert_eq!(target.kind, "PROPERTY");
    assert_eq!(out.reason.as_deref(), Some("sold"));
}

#[test]
fn resolves_vehicle_by_id() {
    let holdings = vec![alt_holding("v1", "2021 Tesla", AssetKind::Vehicle)];
    let out = alt_tool().build_output(DeleteAlternativeAssetArgs { asset_ref: "v1".into(), reason: None }, &holdings);
    assert!(out.validation.is_valid);
    assert_eq!(snapshot(&holdings[out.target.unwrap()]).kind, "VEHICLE");
}

#[test]
fn delete_alternative_asset_ambiguous_match_blocks_confirm() {
    let holdings = vec![
        alt_holding("p1", "Apartment unit A", AssetKind::Property),
        alt_holding("p2", "Apartment unit B", AssetKind::Property),
    ];
    let out = alt_tool().build_output(DeleteAlternativeAssetArgs { asset_ref: "apartment".into(), reason: None }, &holdings);
    assert!(!out.validation.is_valid);
    assert_eq!(out.validation.candidates.len(), 2);
}

#[test]
fn delete_alternative_asset_missing_ref_blocks_confirm() {
    let holdings = vec![alt_holding("p1", "Cabin", AssetKind::Property)];
    let out = alt_tool().build_output(DeleteAlternativeAssetArgs { asset_ref: "".into(), reason: None }, &holdings);
    assert!(!out.validation.is_valid);
}

#[test]
fn delete_alternative_asset_unknown_ref_returns_actionable_warning() {
    let holdings = vec![alt_holding("p1", "Cabin", AssetKind::Property)];
    let out = alt_tool().build_output(DeleteAlternativeAssetArgs { asset_ref: "ferrari".into(), reason: None }, &holdings);
    assert!(!out.validation.is_valid);
    assert!(!out.validation.warnings.is_empty());
}

#[test]
fn tradable_asset_kinds_are_ignored() {
    let mut equity = alt_holding("eq-1", "Apple Inc", AssetKind::Property);
    equity.asset_kind = Some(AssetKind::Investment);
    let holdings = vec![equity];
    let out = alt_tool().build_output(DeleteAlternativeAssetArgs { asset_ref: "Apple".into(), reason: None }, &holdings);
    assert!(!out.validation.is_valid);
}

#[test]
fn private_equity_kind_resolves() {
    let holdings = vec![alt_holding("pe1", "Acme PE Fund VII", AssetKind::PrivateEquity)];
    let out = alt_tool().build_output(DeleteAlternativeAssetArgs { asset_ref: "Acme".into(), reason: None }, &holdings);
    assert!(out.validation.is_valid);
    assert_eq!(snapshot(&holdings[out.target.unwrap()]).kind, "PRIVATE_EQUITY");
}

#[test]
fn snapshot_defaults_name_and_drops_blank_symbol() {
    let mut h = alt_holding("x1", "Gold bars", AssetKind::PreciousMetal);
    h.instrument = Some(Instrument { id: "x1".into(), symbol: "".into(), name: None, notes: None });
    let s = snapshot(&h);
    assert_eq!(s.name, "Asset");
    assert_eq!(s.display_code, None);
    assert_eq!(s.kind, "PRECIOUS_METAL");
}
