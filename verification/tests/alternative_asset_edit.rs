use std::sync::Arc;

use mizan::holdings::{AssetKind, Holding, Instrument};
use mizan::tools::env::AiEnvironment;
use mizan::tools::update_alternative_asset::{UpdateAlternativeAssetArgs, UpdateAlternativeAssetTool};
use mizan::tools::update_goal::AmountEdit;

struct MockEnvironment;

impl AiEnvironment for MockEnvironment {
    fn base_currency(&self) -> String {
        "USD".to_string()
    }
}

fn alt_holding(asset_id: &str, name: &str, kind: AssetKind) -> Holding {
    Holding {
        id: format!("h-{}", asset_id),
        account_id: "TOTAL".to_string(),
        instrument: Some(Instrument {
            id: asset_id.to_string(),
            symbol: asset_id.to_string(),
            name: Some(name.to_string()),
            notes: None,
        }),
        asset_kind: Some(kind),
        local_currency: "USD".to_string(),
    }
}

fn args(asset_ref: &str) -> UpdateAlternativeAssetArgs {
    UpdateAlternativeAssetArgs { asset_ref: asset_ref.to_string(), name: None, notes: None, metadata: None }
}

fn tool() -> UpdateAlternativeAssetTool<MockEnvironment> {
    UpdateAlternativeAssetTool::new(Arc::new(MockEnvironment))
}

/// How the host judges a requested value against the asset's current one.
fn judge(requested: Option<f64>, current: Option<f64>) -> AmountEdit {
    match requested {
        None => AmountEdit::Unchanged,
        Some(v) if !v.is_finite() || v < 0.0 => AmountEdit::Invalid { shown: v.to_string() },
        Some(v) if Some(v) == current => AmountEdit::Unchanged,
        Some(v) => AmountEdit::Changed { old: current.map(|x| format!("{:.2}", x)), new: format!("{:.2}", v) },
    }
}

#[test]
fn rename_emits_diff() {
    let hs = vec![alt_holding("p1", "Lake cabin", AssetKind::Property)];
    let mut a = args("Lake cabin");
    a.name = Some("Mountain cabin".into());
    let out = tool().build_output(a, &hs, AmountEdit::Unchanged);
    assert!(out.validation.is_valid);
    assert_eq!(out.draft.name, "Mountain cabin");
    assert!(out.diff.iter().any(|d| d.field == "name"));
}

#[test]
fn raise_value_emits_diff() {
    let hs = vec![alt_holding("p1", "House", AssetKind::Property)];
    let out = tool().build_output(args("p1"), &hs, judge(Some(1_200_000.0), Some(1_000_000.0)));
    assert!(out.validation.is_valid);
    let diff = out.diff.iter().find(|d| d.field == "currentValue").unwrap();
    assert_eq!(diff.new.as_deref(), Some("1200000.00"));
}

#[test]
fn invalid_value_warns_and_drops() {
    let hs = vec![alt_holding("p1", "House", AssetKind::Property)];
    let out = tool().build_output(args("p1"), &hs, judge(Some(-1.0), Some(1_000_000.0)));
    assert!(out.validation.warnings.iter().any(|w| w.contains("invalid")));
    assert!(!out.validation.has_changes);
}

#[test]
fn recognised_metadata_keys_pass() {
    let hs = vec![alt_holding("p1", "Rental", AssetKind::Property)];
    let mut a = args("Rental");
    a.metadata = Some(vec![
        ("monthly_rent".to_string(), Some("4500".to_string())),
        ("tenant_name".to_string(), Some("Acme LLC".to_string())),
    ]);
    let out = tool().build_output(a, &hs, AmountEdit::Unchanged);
    assert!(out.validation.is_valid);
    assert_eq!(out.metadata_patch, vec![0, 1]);
    assert!(out.diff.iter().any(|d| d.field == "metadata.monthly_rent"));
}

#[test]
fn unknown_metadata_key_dropped_with_warning() {
    let hs = vec![alt_holding("p1", "House", AssetKind::Property)];
    let mut a = args("House");
    a.metadata = Some(vec![("zip_code".to_string(), Some("90210".to_string()))]);
    let out = tool().build_output(a, &hs, AmountEdit::Unchanged);
    assert!(out.validation.warnings.iter().any(|w| w.contains("zip_code")));
    assert!(out.metadata_patch.is_empty());
}

#[test]
fn update_alternative_asset_no_op_warns() {
    let hs = vec![alt_holding("p1", "Cabin", AssetKind::Property)];
    let out = tool().build_output(args("Cabin"), &hs, judge(Some(800_000.0), Some(800_000.0)));
    assert!(!out.validation.is_valid);
    assert!(out.validation.warnings.iter().any(|w| w.contains("Nothing to change")));
}

#[test]
fn update_alternative_asset_ambiguous_match_blocks_confirm() {
    let hs = vec![
        alt_holding("p1", "Apartment A", AssetKind::Property),
        alt_holding("p2", "Apartment B", AssetKind::Property),
    ];
    let out = tool().build_output(args("Apartment"), &hs, AmountEdit::Unchanged);
    assert!(!out.validation.is_valid);
    assert_eq!(out.validation.candidates.len(), 2);
}

#[test]
fn tradable_assets_filtered_out() {
    let mut equity = alt_holding("eq-1", "Apple", AssetKind::Property);
    equity.asset_kind = Some(AssetKind::Investment);
    let mut a = args("Apple");
    a.name = Some("AAPL".into());
    let out = tool().build_output(a, &vec![equity], AmountEdit::Unchanged);
    assert!(!out.validation.is_valid);
}

#[test]
fn missing_ref_blocks() {
    let hs = vec![alt_holding("p1", "House", AssetKind::Property)];
    let out = tool().build_output(args("  "), &hs, AmountEdit::Unchanged);
    assert!(!out.validation.is_valid);
    assert!(out.validation.warnings.iter().any(|w| w.contains("required")));
}

#[test]
fn alternative_edit_rows_and_warnings_in_order() {
    let mut h = alt_holding("v1", "Car", AssetKind::Vehicle);
    h.instrument.as_mut().unwrap().notes = Some("old".into());
    let mut a = args("v1");
    a.notes = Some("  ".into());
    a.metadata = Some(vec![("color".to_string(), None), ("year".to_string(), Some("2021".to_string()))]);
    let out = tool().build_output(a, &vec![h], AmountEdit::Invalid { shown: "NaN".into() });
    let fields: Vec<&str> = out.diff.iter().map(|d| d.field.as_str()).collect();
    assert_eq!(fields, vec!["notes", "metadata.year"]);
    assert_eq!(out.draft.notes, None);
    assert_eq!(out.draft.kind, "VEHICLE");
    assert_eq!(out.validation.warnings.len(), 2);
    assert!(out.validation.warnings[0].starts_with("Current value NaN is invalid"));
    assert!(out.validation.warnings[1].starts_with("Unknown metadata key 'color'"));
}
