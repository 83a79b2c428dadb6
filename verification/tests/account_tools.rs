use std::sync::Arc;

use mizan::accounts::{resolve_account, Account};
use mizan::tools::delete_account::{ActivityRecord, DeleteAccountArgs, DeleteAccountTool};
use mizan::tools::env::AiEnvironment;
use mizan::tools::resolve::Resolution;
use mizan::tools::update_account::{UpdateAccountArgs, UpdateAccountTool};

struct MockEnvironment;

impl AiEnvironment for MockEnvironment {
    fn base_currency(&self) -> String {
        "USD".to_string()
    }
}

fn sample_account(id: &str, name: &str, account_type: &str) -> Account {
    Account {
        id: id.to_string(),
        name: name.to_string(),
        account_type: account_type.to_string(),
        group: None,
        currency: "USD".to_string(),
        is_default: false,
        is_active: true,
        meta: None,
    }
}

fn make_account(id: &str, name: &str, is_default: bool) -> Account {
    let mut a = sample_account(id, name, "SECURITIES");
    a.is_default = is_default;
    a
}

fn update_tool() -> UpdateAccountTool<MockEnvironment> {
    UpdateAccountTool::new(Arc::new(MockEnvironment))
}

fn delete_tool() -> DeleteAccountTool<MockEnvironment> {
    DeleteAccountTool::new(Arc::new(MockEnvironment))
}

fn activity(kind: &str, date: &str) -> ActivityRecord {
    ActivityRecord { activity_type: kind.to_string(), date: date.to_string(), asset_id: None }
}

// ─── update_account ──────────────────────────────────────────────────────

#[test]
fn renames_an_account() {
    let accounts = vec![sample_account("acc-1", "Vanguard taxable", "SECURITIES")];
    let out = update_tool().build_output(
        UpdateAccountArgs {
            account_ref: "Vanguard taxable".into(),
            name: Some("Vanguard brokerage".into()),
            ..Default::default()
        },
        &accounts,
    );
    assert!(out.validation.is_valid);
    assert_eq!(out.draft.name, "Vanguard brokerage");
    assert_eq!(out.current.name, "Vanguard taxable");
    assert_eq!(out.diff.len(), 1);
    assert_eq!(out.diff[0].field, "name");
}

#[test]
fn resolves_substring_match() {
    let accounts = vec![sample_account("acc-1", "Vanguard taxable", "SECURITIES")];
    let out = update_tool().build_output(
        UpdateAccountArgs {
            account_ref: "vanguard".into(),
            is_default: Some(true),
            ..Default::default()
        },
        &accounts,
    );
    assert!(out.validation.resolved);
    assert!(out.draft.is_default);
    assert!(!out.current.is_default);
}

#[test]
fn flags_ambiguous_reference() {
    let accounts = vec![
        sample_account("acc-1", "Schwab Roth", "SECURITIES"),
        sample_account("acc-2", "Schwab Traditional", "SECURITIES"),
    ];
    let out = update_tool().build_output(
        UpdateAccountArgs {
            account_ref: "schwab".into(),
            name: Some("Schwab".into()),
            ..Default::default()
        },
        &accounts,
    );
    assert!(!out.validation.is_valid);
    assert!(!out.validation.resolved);
    assert_eq!(out.validation.candidates.len(), 2);
}

#[test]
fn no_op_change_warns() {
    let accounts = vec![sample_account("acc-1", "Schwab", "SECURITIES")];
    let out = update_tool().build_output(
        UpdateAccountArgs {
            account_ref: "Schwab".into(),
            name: Some("Schwab".into()),
            ..Default::default()
        },
        &accounts,
    );
    assert!(!out.validation.is_valid);
    assert!(out.validation.warnings.iter().any(|w| w.contains("No fields changed")));
}

#[test]
fn update_diff_lists_fields_in_order_with_yes_no_flags() {
    let mut a = sample_account("acc-1", "Cash", "CASH");
    a.group = Some("Banks".into());
    let out = update_tool().build_output(
        UpdateAccountArgs {
            account_ref: "acc-1".into(),
            account_type: Some(" brokerage ".into()),
            is_active: Some(false),
            group: Some("   ".into()),
            notes: Some("  moved  ".into()),
            ..Default::default()
        },
        &vec![a],
    );
    let fields: Vec<&str> = out.diff.iter().map(|d| d.field.as_str()).collect();
    assert_eq!(fields, vec!["accountType", "group", "isActive", "notes"]);
    assert_eq!(out.draft.account_type, "SECURITIES");
    assert_eq!(out.draft.group, None);
    assert_eq!(out.diff[2].old.as_deref(), Some("yes"));
    assert_eq!(out.diff[2].new.as_deref(), Some("no"));
    assert_eq!(out.draft.notes.as_deref(), Some("moved"));
    assert!(out.validation.is_valid);
}

#[test]
fn update_unknown_reference_returns_stub_draft() {
    let accounts = vec![sample_account("acc-1", "Schwab", "SECURITIES")];
    let out = update_tool().build_output(
        UpdateAccountArgs { account_ref: "wise".into(), account_type: Some("bank".into()), ..Default::default() },
        &accounts,
    );
    assert!(!out.validation.resolved);
    assert!(out.validation.missing_fields.is_empty());
    assert_eq!(out.draft.account_type, "CASH");
    assert!(out.draft.is_active);
    assert_eq!(
        out.validation.warnings,
        vec!["No active account matches \"wise\". Use create_account to add it, or list accounts first.".to_string()]
    );
    let blank = update_tool().build_output(
        UpdateAccountArgs { account_ref: "  ".into(), ..Default::default() },
        &accounts,
    );
    assert_eq!(blank.validation.missing_fields, vec!["accountRef".to_string()]);
}

#[test]
fn id_match_wins_over_name_match() {
    let accounts = vec![sample_account("Wise", "Other", "CASH"), sample_account("acc-2", "Wise", "CASH")];
    match resolve_account(&accounts, " Wise ") {
        Resolution::Single(i) => assert_eq!(i, 0),
        _ => panic!("expected a single match"),
    }
    match resolve_account(&accounts, "WISE") {
        Resolution::Single(i) => assert_eq!(i, 1),
        _ => panic!("expected a single match"),
    }
}

// ─── delete_account ──────────────────────────────────────────────────────

#[test]
fn resolves_by_exact_name() {
    let accounts = vec![make_account("a1", "Vanguard taxable", false)];
    let out = delete_tool().build_output(
        DeleteAccountArgs { account_ref: "Vanguard taxable".into(), reason: None },
        &accounts,
        &Vec::new(),
    );
    assert!(out.validation.is_valid);
    assert!(out.validation.resolved);
    assert_eq!(out.target.id, "a1");
}

#[test]
fn delete_account_ambiguous_match_blocks_confirm() {
    let accounts = vec![
        make_account("a1", "Vanguard taxable", false),
        make_account("a2", "Vanguard retirement", false),
    ];
    let out = delete_tool().build_output(
        DeleteAccountArgs { account_ref: "Vanguard".into(), reason: None },
        &accounts,
        &Vec::new(),
    );
    assert!(!out.validation.is_valid);
    assert!(!out.validation.resolved);
    assert_eq!(out.validation.candidates.len(), 2);
    assert_eq!(
        out.validation.warnings[0],
        "\"Vanguard\" matched 2 accounts. Ask the user which one they mean by name + currency before retrying."
    );
}

#[test]
fn delete_account_missing_ref_blocks_confirm() {
    let accounts = vec![make_account("a1", "Vanguard", false)];
    let out = delete_tool().build_output(
        DeleteAccountArgs { account_ref: "  ".into(), reason: None },
        &accounts,
        &Vec::new(),
    );
    assert!(!out.validation.is_valid);
    assert!(out.validation.warnings.iter().any(|w| w.contains("required")));
}

#[test]
fn delete_account_unknown_ref_returns_actionable_warning() {
    let accounts = vec![make_account("a1", "Vanguard", false)];
    let out = delete_tool().build_output(
        DeleteAccountArgs { account_ref: "nonexistent".into(), reason: None },
        &accounts,
        &Vec::new(),
    );
    assert!(!out.validation.is_valid);
    assert!(out.validation.warnings.iter().any(|w| w.contains("No account")));
}

#[test]
fn default_account_surfaces_inheritance_warning() {
    let accounts = vec![make_account("a1", "Main", true)];
    let out = delete_tool().build_output(
        DeleteAccountArgs { account_ref: "Main".into(), reason: None },
        &accounts,
        &Vec::new(),
    );
    assert!(out.validation.is_valid);
    assert!(out.impact.is_default);
    assert!(out.validation.warnings.iter().any(|w| w.contains("default account")));
}

#[test]
fn large_cascade_warns_and_previews_last_five() {
    let accounts = vec![make_account("a1", "Main", false)];
    let activities: Vec<ActivityRecord> =
        (1..=21).map(|d| activity("BUY", &format!("2024-01-{:02}", d))).collect();
    let out = delete_tool().build_output(
        DeleteAccountArgs { account_ref: "a1".into(), reason: Some("closed".into()) },
        &accounts,
        &activities,
    );
    assert_eq!(out.impact.activity_count, 21);
    let dates: Vec<&str> = out.impact.recent_activities.iter().map(|a| a.date.as_str()).collect();
    assert_eq!(dates, vec!["2024-01-17", "2024-01-18", "2024-01-19", "2024-01-20", "2024-01-21"]);
    assert_eq!(
        out.validation.warnings,
        vec!["Deleting this account will cascade-remove 21 activities. Consider archiving instead if you want to keep history.".to_string()]
    );
    assert_eq!(out.reason.as_deref(), Some("closed"));
}
