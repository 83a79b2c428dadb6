use mizan::tool_registry::{AuditScope, NumericBounds};
use mizan::tools::{
    computation_safety, holding_safety, lifecycle_safety, memory_safety, scenario_alert_safety,
};

// ─── computation ────────────────────────────────────────────────────────

#[test]
fn compute_net_worth_is_cheap_read_with_currency_logged() {
    let r = computation_safety::compute_net_worth();
    assert_eq!(r.name, "compute_net_worth");
    assert_eq!(r.cap_weight.get(), 2);
    assert_eq!(r.audit_scope, AuditScope::Custom("base_currency"));
    assert!(!r.emits_truth_ledger);
}

#[test]
fn get_holding_history_logs_id_and_window() {
    let r = computation_safety::get_holding_history();
    assert_eq!(r.name, "get_holding_history");
    assert_eq!(r.cap_weight.get(), 1);
    assert_eq!(r.audit_scope, AuditScope::IdAndDateRange);
    assert_eq!(r.numeric_bounds, NumericBounds::NoBounds);
    assert!(!r.emits_truth_ledger);
}

#[test]
fn get_market_data_logs_symbol_and_window() {
    let r = computation_safety::get_market_data();
    assert_eq!(r.name, "get_market_data");
    assert_eq!(r.audit_scope, AuditScope::SymbolAndDateRange);
}

#[test]
fn get_fx_rate_audit_scope_is_pair() {
    let r = computation_safety::get_fx_rate();
    assert_eq!(r.name, "get_fx_rate");
    assert_eq!(r.audit_scope, AuditScope::Pair);
    assert!(!r.emits_truth_ledger);
}

#[test]
fn bond_analytics_enforces_bond_as_of_bounds() {
    let r = computation_safety::bond_analytics();
    assert_eq!(r.name, "bond_analytics");
    assert_eq!(r.cap_weight.get(), 3);
    assert_eq!(r.numeric_bounds, NumericBounds::BondAsOf);
    assert!(!r.emits_truth_ledger);
}

#[test]
fn all_five_are_read_only() {
    for reg in computation_safety::all().iter() {
        assert!(!reg.emits_truth_ledger, "{} is read-only", reg.name);
    }
}

#[test]
fn computation_safety_all_five_cap_weights_within_adr_0020_range() {
    for reg in computation_safety::all().iter() {
        let w = reg.cap_weight.get();
        assert!((1..=8).contains(&w), "{} cap_weight={w} outside [1, 8]", reg.name);
    }
}

#[test]
fn computation_safety_all_returns_five_distinct_tool_names() {
    let registrations = computation_safety::all();
    let names: Vec<&str> = registrations.iter().map(|r| r.name).collect();
    assert_eq!(
        names,
        vec![
            "compute_net_worth",
            "get_holding_history",
            "get_market_data",
            "get_fx_rate",
            "bond_analytics",
        ]
    );
}

// ─── holdings ───────────────────────────────────────────────────────────

#[test]
fn create_holding_matches_adr_0020_row_1() {
    let r = holding_safety::create_holding();
    assert_eq!(r.name, "create_holding");
    assert_eq!(r.cap_weight.get(), 5);
    assert!(matches!(r.audit_scope, AuditScope::FullInput { redact } if redact.is_empty()));
    assert!(matches!(
        r.numeric_bounds,
        NumericBounds::Holding {
            qty_max: q,
            cost_basis_max: c,
        } if (q as f64 - 1.0e9).abs() < f64::EPSILON && (c as f64 - 1.0e9).abs() < f64::EPSILON
    ));
    assert!(r.emits_truth_ledger);
}

#[test]
fn update_holding_uses_diff_audit_scope() {
    let r = holding_safety::update_holding();
    assert_eq!(r.name, "update_holding");
    assert_eq!(r.cap_weight.get(), 5);
    assert_eq!(r.audit_scope, AuditScope::Diff);
    assert!(r.emits_truth_ledger);
}

#[test]
fn delete_holding_has_cap_three_and_no_bounds() {
    let r = holding_safety::delete_holding();
    assert_eq!(r.name, "delete_holding");
    assert_eq!(r.cap_weight.get(), 3);
    assert_eq!(r.audit_scope, AuditScope::IdOnly);
    assert_eq!(r.numeric_bounds, NumericBounds::NoBounds);
    assert!(r.emits_truth_ledger);
}

#[test]
fn all_three_descriptors_emit_truth_ledger() {
    for reg in holding_safety::all().iter() {
        assert!(reg.emits_truth_ledger, "{} must emit Truth Ledger", reg.name);
    }
}

#[test]
fn all_three_cap_weights_within_adr_0020_range() {
    for reg in holding_safety::all().iter() {
        let w = reg.cap_weight.get();
        assert!((1..=8).contains(&w), "{} cap_weight={w} outside [1, 8]", reg.name);
    }
}

#[test]
fn all_returns_three_distinct_tool_names() {
    let registrations = holding_safety::all();
    let names: Vec<&str> = registrations.iter().map(|r| r.name).collect();
    assert_eq!(names, vec!["create_holding", "update_holding", "delete_holding"]);
}

#[test]
fn create_and_update_share_holding_numeric_bounds_envelope() {
    let c = holding_safety::create_holding();
    let u = holding_safety::update_holding();
    assert_eq!(c.numeric_bounds, u.numeric_bounds);
}

// ─── lifecycle ──────────────────────────────────────────────────────────

#[test]
fn sync_account_redacts_provider_secrets() {
    let r = lifecycle_safety::sync_account();
    assert_eq!(r.name, "sync_account");
    assert_eq!(r.cap_weight.get(), 5);
    match r.audit_scope {
        AuditScope::FullInput { redact } => {
            assert!(redact.contains(&"plaid_access_token"));
            assert!(redact.contains(&"snaptrade_user_secret"));
        }
        other => panic!("sync_account must redact tokens; got {other:?}"),
    }
    assert!(!r.emits_truth_ledger);
}

#[test]
fn generate_report_logs_report_type_and_scope() {
    let r = lifecycle_safety::generate_report();
    assert_eq!(r.name, "generate_report");
    assert_eq!(r.cap_weight.get(), 3);
    assert_eq!(r.audit_scope, AuditScope::Custom("report_type_and_scope"));
    assert!(!r.emits_truth_ledger);
}

#[test]
fn summarize_document_has_heaviest_cap_and_doc_bounds() {
    let r = lifecycle_safety::summarize_document();
    assert_eq!(r.name, "summarize_document");
    assert_eq!(r.cap_weight.get(), 8);
    match r.numeric_bounds {
        NumericBounds::Document { approved_kinds, max_words } => {
            assert_eq!(max_words, 50_000);
            assert!(approved_kinds.contains(&"pdf"));
            assert!(approved_kinds.contains(&"csv"));
            assert!(approved_kinds.contains(&"xlsx"));
            assert!(approved_kinds.contains(&"txt"));
        }
        other => panic!("summarize_document needs Document bounds; got {other:?}"),
    }
}

#[test]
fn estimate_price_is_read_only_with_estimate_range_bounds() {
    let r = lifecycle_safety::estimate_price();
    assert_eq!(r.name, "estimate_price");
    assert_eq!(r.numeric_bounds, NumericBounds::EstimateRange);
    assert!(!r.emits_truth_ledger);
}

#[test]
fn find_sharia_status_is_cheap_read() {
    let r = lifecycle_safety::find_sharia_status();
    assert_eq!(r.name, "find_sharia_status");
    assert_eq!(r.cap_weight.get(), 1);
    assert_eq!(r.audit_scope, AuditScope::Custom("symbol"));
    assert!(!r.emits_truth_ledger);
}

#[test]
fn no_lifecycle_tool_emits_truth_ledger() {
    for reg in lifecycle_safety::all().iter() {
        assert!(!reg.emits_truth_ledger, "{} must not emit Truth Ledger", reg.name);
    }
}

#[test]
fn lifecycle_safety_all_five_cap_weights_within_adr_0020_range() {
    for reg in lifecycle_safety::all().iter() {
        let w = reg.cap_weight.get();
        assert!((1..=8).contains(&w), "{} cap_weight={w} outside [1, 8]", reg.name);
    }
}

#[test]
fn lifecycle_safety_all_returns_five_distinct_tool_names() {
    let registrations = lifecycle_safety::all();
    let names: Vec<&str> = registrations.iter().map(|r| r.name).collect();
    assert_eq!(
        names,
        vec![
            "sync_account",
            "generate_report",
            "summarize_document",
            "estimate_price",
            "find_sharia_status",
        ]
    );
}

#[test]
fn sync_account_redact_list_does_not_include_unrelated_fields() {
    let r = lifecycle_safety::sync_account();
    if let AuditScope::FullInput { redact } = r.audit_scope {
        for field in redact {
            assert!(
                *field == "plaid_access_token" || *field == "snaptrade_user_secret",
                "unexpected redact field {field}"
            );
        }
    }
}

// ─── memory ─────────────────────────────────────────────────────────────

#[test]
fn get_user_memory_logs_keys_only_not_values() {
    let r = memory_safety::get_user_memory();
    assert_eq!(r.name, "get_user_memory");
    assert_eq!(r.cap_weight.get(), 1);
    assert_eq!(r.audit_scope, AuditScope::Custom("fact_keys_list"));
    assert!(!r.emits_truth_ledger);
}

#[test]
fn update_user_memory_uses_diff_audit_and_per_fact_bounds() {
    let r = memory_safety::update_user_memory();
    assert_eq!(r.name, "update_user_memory");
    assert_eq!(r.cap_weight.get(), 3);
    assert_eq!(r.audit_scope, AuditScope::Diff);
    assert_eq!(r.numeric_bounds, NumericBounds::PerFactType);
    assert!(!r.emits_truth_ledger);
}

#[test]
fn neither_memory_tool_emits_truth_ledger() {
    for reg in memory_safety::all().iter() {
        assert!(!reg.emits_truth_ledger, "{} must not emit Truth Ledger", reg.name);
    }
}

#[test]
fn all_two_cap_weights_within_adr_0020_range() {
    for reg in memory_safety::all().iter() {
        let w = reg.cap_weight.get();
        assert!((1..=8).contains(&w), "{} cap_weight={w} outside [1, 8]", reg.name);
    }
}

#[test]
fn all_returns_two_distinct_tool_names() {
    let registrations = memory_safety::all();
    let names: Vec<&str> = registrations.iter().map(|r| r.name).collect();
    assert_eq!(names, vec!["get_user_memory", "update_user_memory"]);
}

#[test]
fn write_tool_has_higher_cap_weight_than_read() {
    assert!(
        memory_safety::update_user_memory().cap_weight.get()
            > memory_safety::get_user_memory().cap_weight.get()
    );
}

// ─── scenarios, alerts, activities ──────────────────────────────────────

#[test]
fn add_activity_emits_truth_ledger_and_per_activity_bounds() {
    let r = scenario_alert_safety::add_activity();
    assert_eq!(r.name, "add_activity");
    assert_eq!(r.cap_weight.get(), 5);
    assert!(matches!(r.audit_scope, AuditScope::FullInput { redact } if redact.is_empty()));
    assert_eq!(r.numeric_bounds, NumericBounds::PerActivityType);
    assert!(r.emits_truth_ledger);
}

#[test]
fn list_activities_is_cheap_read() {
    let r = scenario_alert_safety::list_activities();
    assert_eq!(r.name, "list_activities");
    assert_eq!(r.cap_weight.get(), 1);
    assert_eq!(r.audit_scope, AuditScope::FilterAndCount);
    assert!(!r.emits_truth_ledger);
}

#[test]
fn set_reminder_enforces_two_year_future_horizon() {
    let r = scenario_alert_safety::set_reminder();
    assert_eq!(r.name, "set_reminder");
    match r.numeric_bounds {
        NumericBounds::DateFuture { max_horizon_secs } => {
            assert_eq!(max_horizon_secs, 63_072_000);
        }
        other => panic!("set_reminder needs DateFuture bounds; got {other:?}"),
    }
    assert!(!r.emits_truth_ledger);
}

#[test]
fn set_alert_uses_asset_class_threshold() {
    let r = scenario_alert_safety::set_alert();
    assert_eq!(r.name, "set_alert");
    assert_eq!(r.numeric_bounds, NumericBounds::AssetClassThreshold);
    assert!(!r.emits_truth_ledger);
}

#[test]
fn get_news_is_read_only() {
    let r = scenario_alert_safety::get_news();
    assert_eq!(r.name, "get_news");
    assert_eq!(r.cap_weight.get(), 1);
    assert!(!r.emits_truth_ledger);
}

#[test]
fn run_scenario_is_heaviest_tier() {
    let r = scenario_alert_safety::run_scenario();
    assert_eq!(r.name, "run_scenario");
    assert_eq!(r.cap_weight.get(), 8);
    assert_eq!(r.numeric_bounds, NumericBounds::ScenarioInputs);
    assert!(!r.emits_truth_ledger);
}

#[test]
fn compare_scenarios_logs_only_ids() {
    let r = scenario_alert_safety::compare_scenarios();
    assert_eq!(r.name, "compare_scenarios");
    assert_eq!(r.audit_scope, AuditScope::Custom("scenario_ids_list"));
    assert!(!r.emits_truth_ledger);
}

#[test]
fn only_add_activity_emits_truth_ledger() {
    let registrations = scenario_alert_safety::all();
    let ledger_emitters: Vec<&str> = registrations
        .iter()
        .filter(|r| r.emits_truth_ledger)
        .map(|r| r.name)
        .collect();
    assert_eq!(ledger_emitters, vec!["add_activity"]);
}

#[test]
fn all_seven_cap_weights_within_adr_0020_range() {
    for reg in scenario_alert_safety::all().iter() {
        let w = reg.cap_weight.get();
        assert!((1..=8).contains(&w), "{} cap_weight={w} outside [1, 8]", reg.name);
    }
}

#[test]
fn all_returns_seven_distinct_tool_names() {
    let registrations = scenario_alert_safety::all();
    let names: Vec<&str> = registrations.iter().map(|r| r.name).collect();
    assert_eq!(
        names,
        vec![
            "add_activity",
            "list_activities",
            "set_reminder",
            "set_alert",
            "get_news",
            "run_scenario",
            "compare_scenarios",
        ]
    );
}

#[test]
fn run_scenario_carries_heaviest_cap_in_this_catalog() {
    let max_cap = scenario_alert_safety::all()
        .iter()
        .map(|r| r.cap_weight.get())
        .max()
        .unwrap_or(0);
    assert_eq!(max_cap, 8);
    assert_eq!(scenario_alert_safety::run_scenario().cap_weight.get(), max_cap);
}
