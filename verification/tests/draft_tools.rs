use std::sync::Arc;

use mizan::tools::add_alternative_asset::{AddAlternativeAssetArgs, AddAlternativeAssetTool};
use mizan::tools::create_account::{CreateAccountArgs, CreateAccountTool};
use mizan::tools::create_goal::{CreateGoalArgs, CreateGoalTool, ExistingGoal};
use mizan::tools::create_liability::{CreateLiabilityArgs, CreateLiabilityTool, LiabilityFigures};
use mizan::tools::env::AiEnvironment;
use mizan::tools::update_liability::{LiabilityEditFigures, UpdateLiabilityArgs, UpdateLiabilityTool};

struct MockEnvironment;

impl MockEnvironment {
    fn new() -> Self {
        MockEnvironment
    }
}

impl AiEnvironment for MockEnvironment {
    fn base_currency(&self) -> String {
        "USD".to_string()
    }
}

fn meta(entries: &[(&str, &str)]) -> Option<Vec<(String, String)>> {
    Some(entries.iter().map(|(k, v)| (k.to_string(), v.to_string())).collect())
}

fn field<'a>(m: &'a [(String, String)], key: &str) -> Option<&'a str> {
    m.iter().find(|(k, _)| k == key).map(|(_, v)| v.as_str())
}

// ─── create_account ──────────────────────────────────────────────────────

fn account_tool() -> CreateAccountTool<MockEnvironment> {
    CreateAccountTool::new(Arc::new(MockEnvironment::new()))
}

#[test]
fn defaults_currency_to_base() {
    let out = account_tool().build_output(
        CreateAccountArgs { name: "Vanguard".into(), account_type: "brokerage".into(), currency: None, ..Default::default() },
        &Vec::new(),
    );
    assert_eq!(out.draft.currency, "USD");
    assert_eq!(out.draft.account_type, "BROKERAGE");
    assert_eq!(out.draft.provider, "MANUAL");
    assert!(out.validation.is_valid);
}

#[test]
fn normalises_unknown_type_to_other() {
    let out = account_tool().build_output(
        CreateAccountArgs { name: "Acme".into(), account_type: "weird-thing".into(), ..Default::default() },
        &Vec::new(),
    );
    assert_eq!(out.draft.account_type, "OTHER");
}

#[test]
fn flags_missing_name() {
    let out = account_tool().build_output(
        CreateAccountArgs { name: "  ".into(), account_type: "CASH".into(), ..Default::default() },
        &Vec::new(),
    );
    assert!(!out.validation.is_valid);
    assert!(out.validation.missing_fields.iter().any(|f| f == "name"));
}

#[test]
fn surfaces_currency_choices_base_first() {
    let out = account_tool().build_output(
        CreateAccountArgs {
            name: "HDFC India".into(),
            account_type: "SAVINGS".into(),
            currency: Some("inr".into()),
            ..Default::default()
        },
        &Vec::new(),
    );
    assert_eq!(out.draft.currency, "INR");
    assert_eq!(out.available_currencies.first(), Some(&"USD".to_string()));
    assert!(out.available_currencies.contains(&"INR".to_string()));
}

// ─── create_goal ─────────────────────────────────────────────────────────

fn goal_args(title: &str, goal_type: &str) -> CreateGoalArgs {
    CreateGoalArgs {
        title: title.into(),
        goal_type: goal_type.into(),
        currency: None,
        target_date: None,
        start_date: None,
        description: None,
        priority: None,
    }
}

fn goal_tool() -> CreateGoalTool<MockEnvironment> {
    CreateGoalTool::new(Arc::new(MockEnvironment::new()))
}

#[test]
fn produces_valid_basic_draft() {
    let mut a = goal_args("House down payment", "home");
    a.target_date = Some("2030-01-01".into());
    let out = goal_tool().build_output(a, true, &Vec::new());
    assert!(out.validation.is_valid);
    assert_eq!(out.draft.goal_type, "home");
    assert_eq!(out.draft.priority, 2);
    assert_eq!(out.draft.currency, "USD");
    assert_eq!(out.draft.target_date.as_deref(), Some("2030-01-01"));
}

#[test]
fn normalises_hajj_to_custom_save_up() {
    let out = goal_tool().build_output(goal_args("Hajj fund", "hajj"), false, &Vec::new());
    assert_eq!(out.draft.goal_type, "custom_save_up");
}

#[test]
fn retirement_without_target_amount_warns() {
    let out = goal_tool().build_output(goal_args("Retirement", "retirement"), false, &Vec::new());
    assert!(out.validation.warnings.iter().any(|w| w.contains("target amount")));
}

#[test]
fn rejects_bad_target_date() {
    let mut a = goal_args("Wedding", "wedding");
    a.target_date = Some("next-year".into());
    let out = goal_tool().build_output(a, false, &Vec::new());
    assert!(!out.validation.is_valid);
    assert!(out.validation.missing_fields.iter().any(|f| f == "targetDate"));
}

#[test]
fn priority_clamps_to_valid_range() {
    let mut a = goal_args("Emergency", "emergency_fund");
    a.priority = Some(99);
    let out = goal_tool().build_output(a, false, &Vec::new());
    assert_eq!(out.draft.priority, 3);
}

#[test]
fn duplicate_goal_title_warns() {
    let existing = vec![ExistingGoal { id: "g1".into(), title: "HAJJ FUND".into(), goal_type: "custom_save_up".into() }];
    let out = goal_tool().build_output(goal_args("  Hajj fund ", "hajj"), false, &existing);
    assert_eq!(
        out.validation.warnings,
        vec!["You already have a goal titled \"Hajj fund\". Consider editing it instead.".to_string()]
    );
    assert_eq!(out.existing_goals.len(), 1);
}

// ─── create_liability ────────────────────────────────────────────────────

fn liability_args(liability_type: &str) -> CreateLiabilityArgs {
    CreateLiabilityArgs {
        liability_type: liability_type.into(),
        name: None,
        currency: None,
        originated_at: None,
        linked_asset_id: None,
        notes: None,
    }
}

/// How the host judges the amounts.
fn figures(principal: f64, rate_pct: Option<f64>, monthly: Option<f64>) -> LiabilityFigures {
    LiabilityFigures {
        principal_positive: principal > 0.0,
        unusual_rate: rate_pct.filter(|r| !(0.0..=100.0).contains(r)).map(|r| r.to_string()),
        monthly_not_positive: monthly.is_some_and(|m| m <= 0.0),
    }
}

fn liability_tool() -> CreateLiabilityTool<MockEnvironment> {
    CreateLiabilityTool::new(Arc::new(MockEnvironment::new()))
}

#[test]
fn produces_valid_mortgage_draft() {
    let mut a = liability_args("mortgage");
    a.originated_at = Some("2023-01-15".into());
    let out = liability_tool().build_output(a, figures(480_000.0, Some(5.2), Some(2650.0)));
    assert!(out.validation.is_valid);
    assert_eq!(out.draft.liability_type, "mortgage");
    assert_eq!(out.draft.currency, "USD");
    assert_eq!(out.draft.name, "Mortgage");
    assert_eq!(out.draft.originated_at.as_deref(), Some("2023-01-15"));
}

#[test]
fn normalises_aliases() {
    let auto = liability_tool().build_output(liability_args("car-loan"), figures(22_000.0, None, None));
    assert_eq!(auto.draft.liability_type, "auto_loan");
    let cc = liability_tool().build_output(liability_args("CC"), figures(5_400.0, None, None));
    assert_eq!(cc.draft.liability_type, "credit_card");
}

#[test]
fn flags_missing_principal() {
    let out = liability_tool().build_output(liability_args("mortgage"), figures(0.0, None, None));
    assert!(!out.validation.is_valid);
    assert!(out.validation.missing_fields.iter().any(|f| f == "principal"));
}

#[test]
fn unusual_rate_warns() {
    let out = liability_tool().build_output(liability_args("credit_card"), figures(1_000.0, Some(250.0), None));
    assert!(out.validation.is_valid);
    assert!(out.validation.warnings.iter().any(|w| w.contains("unusual")));
    assert_eq!(out.validation.warnings[0], "Rate 250% looks unusual — confirm before saving.");
}

#[test]
fn invalid_date_emits_warning() {
    let mut a = liability_args("mortgage");
    a.originated_at = Some("2 years ago".into());
    let out = liability_tool().build_output(a, figures(100_000.0, None, None));
    assert!(out.draft.originated_at.is_none());
    assert!(out.validation.warnings.iter().any(|w| w.contains("originated_at")));
}

// ─── add_alternative_asset ───────────────────────────────────────────────

fn asset_args(kind: &str, name: &str) -> AddAlternativeAssetArgs {
    AddAlternativeAssetArgs {
        kind: kind.into(),
        name: name.into(),
        currency: None,
        purchase_date: None,
        value_date: None,
        metadata: None,
        notes: None,
    }
}

fn asset_tool() -> AddAlternativeAssetTool<MockEnvironment> {
    AddAlternativeAssetTool::new(Arc::new(MockEnvironment::new()))
}

#[test]
fn produces_valid_property_draft() {
    let mut a = asset_args("real_estate", "Brooklyn brownstone");
    a.currency = Some("USD".into());
    a.purchase_date = Some("2018-06-01".into());
    a.metadata = meta(&[("address", "123 Main St")]);
    let out = asset_tool().build_output(a, 850_000.0 > 0.0, "2026-06-21");
    assert!(out.validation.is_valid);
    assert_eq!(out.draft.kind, "property");
    assert_eq!(field(&out.draft.metadata, "sub_type"), Some("residence"));
    assert_eq!(field(&out.draft.metadata, "address"), Some("123 Main St"));
    assert_eq!(out.draft.value_date, "2026-06-21");
}

#[test]
fn vehicle_default_sub_type_added() {
    let out = asset_tool().build_output(asset_args("car", "2020 Tesla Model 3"), 28_000.0 > 0.0, "2026-06-21");
    assert_eq!(out.draft.kind, "vehicle");
    assert_eq!(field(&out.draft.metadata, "sub_type"), Some("car"));
}

#[test]
fn precious_metal_warns_without_metal_type() {
    let out = asset_tool().build_output(asset_args("gold", "Gold coins"), 5_000.0 > 0.0, "2026-06-21");
    assert_eq!(out.draft.kind, "precious");
    assert_eq!(field(&out.draft.metadata, "unit"), Some("oz"));
    assert!(out.validation.warnings.iter().any(|w| w.contains("metal_type")));
}

#[test]
fn flags_missing_value() {
    let out = asset_tool().build_output(asset_args("vehicle", "Car"), 0.0 > 0.0, "2026-06-21");
    assert!(!out.validation.is_valid);
    assert!(out.validation.missing_fields.iter().any(|f| f == "currentValue"));
}

#[test]
fn unknown_kind_falls_back_to_other() {
    let out = asset_tool().build_output(asset_args("spaceship", "SpaceX rocket"), true, "2026-06-21");
    assert_eq!(out.draft.kind, "other");
}

#[test]
fn unreadable_value_date_falls_back_to_today() {
    let mut a = asset_args("vehicle", "Car");
    a.value_date = Some("last week".into());
    a.metadata = meta(&[("sub_type", "motorbike")]);
    let out = asset_tool().build_output(a, true, "2026-06-21");
    assert_eq!(out.draft.value_date, "2026-06-21");
    assert_eq!(out.validation.warnings, vec!["Could not parse valueDate \"last week\" — using today instead.".to_string()]);
    assert_eq!(out.draft.metadata.len(), 1);
}

// ─── update_liability ────────────────────────────────────────────────────

fn edit_args(asset_id: &str) -> UpdateLiabilityArgs {
    UpdateLiabilityArgs { asset_id: asset_id.into(), name: None, originated_at: None, liability_type: None, notes: None }
}

/// How the host judges the requested amounts.
fn edit_figures(principal: Option<f64>, rate_pct: Option<f64>, monthly: Option<f64>) -> LiabilityEditFigures {
    LiabilityEditFigures {
        any_given: principal.is_some() || rate_pct.is_some() || monthly.is_some(),
        unusual_rate: rate_pct.filter(|r| !(0.0..=100.0).contains(r)).map(|r| r.to_string()),
        monthly_negative: monthly.is_some_and(|m| m < 0.0),
        principal_negative: principal.is_some_and(|p| p < 0.0),
    }
}

fn edit_tool() -> UpdateLiabilityTool<MockEnvironment> {
    UpdateLiabilityTool::new(Arc::new(MockEnvironment::new()))
}

#[test]
fn renames_and_increases_principal() {
    let mut a = edit_args("LIAB-abc");
    a.name = Some("Real mortgage".into());
    let out = edit_tool().build_output(a, edit_figures(Some(620_000.0), None, None));
    assert!(out.validation.is_valid);
    assert!(out.validation.has_changes);
    assert_eq!(out.draft.name.as_deref(), Some("Real mortgage"));
}

#[test]
fn empty_name_clears_example_prefix() {
    let mut a = edit_args("LIAB-abc");
    a.name = Some("".into());
    let out = edit_tool().build_output(a, edit_figures(None, None, None));
    assert_eq!(out.draft.name.as_deref(), Some(""));
    assert!(out.validation.has_changes);
}

#[test]
fn update_liability_no_op_warns() {
    let out = edit_tool().build_output(edit_args("LIAB-abc"), edit_figures(None, None, None));
    assert!(!out.validation.is_valid);
    assert!(!out.validation.has_changes);
    assert!(out.validation.warnings.iter().any(|w| w.contains("No fields changed")));
}

#[test]
fn update_liability_invalid_date_warns_and_drops() {
    let mut a = edit_args("LIAB-abc");
    a.originated_at = Some("yesterday".into());
    let out = edit_tool().build_output(a, edit_figures(None, None, None));
    assert!(out.draft.originated_at.is_none());
    assert!(out.validation.warnings.iter().any(|w| w.contains("originatedAt")));
}

#[test]
fn unknown_subtype_is_dropped_with_warning() {
    let mut a = edit_args("LIAB-abc");
    a.liability_type = Some("bitcoin-loan".into());
    let out = edit_tool().build_output(a, edit_figures(None, None, None));
    assert!(out.draft.liability_type.is_none());
    assert!(out.validation.warnings.iter().any(|w| w.contains("Unknown liability type")));
}

#[test]
fn missing_asset_id_fails() {
    let out = edit_tool().build_output(edit_args("  "), edit_figures(Some(100_000.0), None, None));
    assert!(!out.validation.is_valid);
    assert!(out.validation.missing_fields.iter().any(|f| f == "assetId"));
}
