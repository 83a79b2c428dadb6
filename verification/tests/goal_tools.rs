use std::sync::Arc;

use mizan::goals::Goal;
use mizan::tools::delete_goal::{DeleteGoalArgs, DeleteGoalTool};
use mizan::tools::env::AiEnvironment;
use mizan::tools::update_goal::{AmountEdit, UpdateGoalArgs, UpdateGoalTool};

struct MockEnvironment;

impl AiEnvironment for MockEnvironment {
    fn base_currency(&self) -> String {
        "USD".to_string()
    }
}

fn make_goal(id: &str, title: &str) -> Goal {
    Goal {
        id: id.to_string(),
        title: title.to_string(),
        goal_type: "RETIREMENT".to_string(),
        status_lifecycle: "ACTIVE".to_string(),
        priority: 2,
        currency: Some("USD".to_string()),
        target_date: Some("2055-01-01".to_string()),
        description: Some("Originally drafted 2026-01".to_string()),
    }
}

fn args(goal_ref: &str) -> UpdateGoalArgs {
    UpdateGoalArgs {
        goal_ref: goal_ref.to_string(),
        title: None,
        target_date: None,
        priority: None,
        status_lifecycle: None,
        description: None,
    }
}

fn tool() -> UpdateGoalTool<MockEnvironment> {
    UpdateGoalTool::new(Arc::new(MockEnvironment))
}

/// How the host judges a requested amount against the goal's current one.
fn judge(requested: Option<f64>, current: Option<f64>) -> AmountEdit {
    match requested {
        None => AmountEdit::Unchanged,
        Some(a) if !a.is_finite() || a < 0.0 => AmountEdit::Invalid { shown: a.to_string() },
        Some(a) if Some(a) == current => AmountEdit::Unchanged,
        Some(a) => AmountEdit::Changed { old: current.map(|v| v.to_string()), new: a.to_string() },
    }
}

#[test]
fn raises_target_amount_emits_diff() {
    let goals = vec![make_goal("g1", "Retirement")];
    let out = tool().build_output(args("Retirement"), &goals, judge(Some(2_000_000.0), Some(1_000_000.0)));
    assert!(out.validation.is_valid);
    assert!(out.validation.has_changes);
    let amount_diff = out.diff.iter().find(|d| d.field == "targetAmount").unwrap();
    assert_eq!(amount_diff.new.as_deref(), Some("2000000"));
    assert_eq!(amount_diff.old.as_deref(), Some("1000000"));
}

#[test]
fn no_op_warns_and_marks_invalid() {
    let goals = vec![make_goal("g1", "Retirement")];
    let mut a = args("Retirement");
    a.priority = Some(2);
    let out = tool().build_output(a, &goals, judge(Some(1_000_000.0), Some(1_000_000.0)));
    assert!(!out.validation.is_valid);
    assert!(!out.validation.has_changes);
    assert!(out.validation.warnings.iter().any(|w| w.contains("Nothing to change")));
}

#[test]
fn update_goal_invalid_date_warns_and_drops() {
    let goals = vec![make_goal("g1", "Retirement")];
    let mut a = args("Retirement");
    a.target_date = Some("not-a-date".into());
    let out = tool().build_output(a, &goals, AmountEdit::Unchanged);
    assert!(out.validation.warnings.iter().any(|w| w.contains("not ISO 8601")));
    assert!(!out.validation.has_changes);
}

#[test]
fn unknown_status_is_dropped_with_warning() {
    let goals = vec![make_goal("g1", "Retirement")];
    let mut a = args("Retirement");
    a.status_lifecycle = Some("RUMINATING".into());
    let out = tool().build_output(a, &goals, AmountEdit::Unchanged);
    assert!(out.validation.warnings.iter().any(|w| w.contains("unknown")));
    assert!(!out.validation.has_changes);
}

#[test]
fn priority_out_of_range_is_dropped() {
    let goals = vec![make_goal("g1", "Retirement")];
    let mut a = args("Retirement");
    a.priority = Some(9);
    let out = tool().build_output(a, &goals, AmountEdit::Unchanged);
    assert!(out.validation.warnings.iter().any(|w| w.contains("out of range")));
    assert!(!out.validation.has_changes);
}

#[test]
fn update_goal_ambiguous_match_blocks_confirm() {
    let goals = vec![make_goal("g1", "Retirement A"), make_goal("g2", "Retirement B")];
    let out = tool().build_output(args("Retirement"), &goals, judge(Some(2_000_000.0), None));
    assert!(!out.validation.is_valid);
    assert_eq!(out.validation.candidates.len(), 2);
}

#[test]
fn update_goal_missing_ref_blocks_confirm() {
    let goals = vec![make_goal("g1", "Retirement")];
    let out = tool().build_output(args("  "), &goals, AmountEdit::Unchanged);
    assert!(!out.validation.is_valid);
    assert!(out.validation.warnings.iter().any(|w| w.contains("required")));
}

#[test]
fn clearing_target_date_emits_diff() {
    let goals = vec![make_goal("g1", "Retirement")];
    let mut a = args("Retirement");
    a.target_date = Some("".into());
    let out = tool().build_output(a, &goals, AmountEdit::Unchanged);
    assert!(out.validation.is_valid);
    assert!(out.draft.target_date.is_none());
    let diff = out.diff.iter().find(|d| d.field == "targetDate").unwrap();
    assert!(diff.new.is_none());
}

#[test]
fn status_change_normalises_case() {
    let goals = vec![make_goal("g1", "Retirement")];
    let mut a = args("Retirement");
    a.status_lifecycle = Some("paused".into());
    let out = tool().build_output(a, &goals, AmountEdit::Unchanged);
    assert!(out.validation.is_valid);
    assert_eq!(out.draft.status_lifecycle, "PAUSED");
}

#[test]
fn goal_edit_rows_follow_field_order() {
    let goals = vec![make_goal("g1", "Retirement")];
    let mut a = args("g1");
    a.title = Some("  Early retirement ".into());
    a.target_date = Some("2050-06-30".into());
    a.priority = Some(1);
    a.description = Some("   ".into());
    let out = tool().build_output(a, &goals, AmountEdit::Invalid { shown: "-5".into() });
    let fields: Vec<&str> = out.diff.iter().map(|d| d.field.as_str()).collect();
    assert_eq!(fields, vec!["title", "targetDate", "priority", "description"]);
    assert_eq!(out.draft.title, "Early retirement");
    assert_eq!(out.diff[2].old.as_deref(), Some("2"));
    assert_eq!(out.diff[2].new.as_deref(), Some("1"));
    assert_eq!(out.draft.description, None);
    assert_eq!(
        out.validation.warnings,
        vec!["Target amount -5 is invalid — drop it or send a positive number.".to_string()]
    );
    let mut bad = args("g1");
    bad.priority = Some(-3);
    let out = tool().build_output(bad, &goals, AmountEdit::Unchanged);
    assert_eq!(out.validation.warnings[0], "Priority -3 is out of range (1-3) — dropped.");
}

#[test]
fn delete_goal_reports_active_goal_and_attachments() {
    let goals = vec![make_goal("g1", "House down payment"), make_goal("g2", "Hajj fund")];
    let tool = DeleteGoalTool::new(Arc::new(MockEnvironment));
    let out = tool.build_output(DeleteGoalArgs { goal_ref: "house".into(), reason: None }, &goals, true, false);
    assert_eq!(out.target, Some(0));
    assert!(out.impact.is_active);
    assert!(out.impact.had_funding_rules);
    assert_eq!(out.validation.warnings.len(), 2);
    assert!(out.validation.is_valid);
    let out = tool.build_output(DeleteGoalArgs { goal_ref: "car".into(), reason: None }, &goals, false, false);
    assert_eq!(
        out.validation.warnings,
        vec!["No goal matching \"car\" found. Use get_goals to list active goals first.".to_string()]
    );
    let mut paused = make_goal("g3", "Car");
    paused.status_lifecycle = "paused".into();
    let out = tool.build_output(DeleteGoalArgs { goal_ref: "g3".into(), reason: Some("sold".into()) }, &vec![paused], false, true);
    assert!(!out.impact.is_active);
    assert_eq!(out.validation.warnings.len(), 1);
    assert_eq!(out.reason.as_deref(), Some("sold"));
}
