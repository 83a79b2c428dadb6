//! Safety descriptors of the activity, reminder, alert, news and scenario
//! tools. Only `add_activity` writes to the Truth Ledger.
use vstd::prelude::*;

use crate::tool_registry::{
    distinct_names, register_tool, registration, weights_in_range, AuditScope, CapWeight,
    NumericBounds, ToolRegistration,
};

verus! {

broadcast use CapWeight::lemma_of;

pub open spec fn spec_add_activity() -> ToolRegistration {
    registration("add_activity", 5, AuditScope::FullInput { redact: &[] }, NumericBounds::PerActivityType, true)
}

/// `add_activity`: weight 5. Records an activity; bounds looked up per activity type.
pub fn add_activity() -> (r: ToolRegistration)
    ensures
        r == spec_add_activity(),
{
    register_tool("add_activity", 5, AuditScope::FullInput { redact: &[] }, NumericBounds::PerActivityType, true)
}

pub open spec fn spec_list_activities() -> ToolRegistration {
    registration("list_activities", 1, AuditScope::FilterAndCount, NumericBounds::NoBounds, false)
}

/// `list_activities`: weight 1. Cheap read; logs the filter and row count.
pub fn list_activities() -> (r: ToolRegistration)
    ensures
        r == spec_list_activities(),
{
    register_tool("list_activities", 1, AuditScope::FilterAndCount, NumericBounds::NoBounds, false)
}

pub open spec fn spec_set_reminder() -> ToolRegistration {
    registration("set_reminder", 2, AuditScope::FullInput { redact: &[] }, NumericBounds::DateFuture { max_horizon_secs: 63_072_000 }, false)
}

/// `set_reminder`: weight 2. Due date within (now, now + 2 years]; two years of 365 days is 63,072,000 seconds.
pub fn set_reminder() -> (r: ToolRegistration)
    ensures
        r == spec_set_reminder(),
{
    register_tool("set_reminder", 2, AuditScope::FullInput { redact: &[] }, NumericBounds::DateFuture { max_horizon_secs: 63_072_000 }, false)
}

pub open spec fn spec_set_alert() -> ToolRegistration {
    registration("set_alert", 2, AuditScope::FullInput { redact: &[] }, NumericBounds::AssetClassThreshold, false)
}

/// `set_alert`: weight 2. Thresholds looked up per asset class.
pub fn set_alert() -> (r: ToolRegistration)
    ensures
        r == spec_set_alert(),
{
    register_tool("set_alert", 2, AuditScope::FullInput { redact: &[] }, NumericBounds::AssetClassThreshold, false)
}

pub open spec fn spec_get_news() -> ToolRegistration {
    registration("get_news", 1, AuditScope::FilterAndCount, NumericBounds::NoBounds, false)
}

/// `get_news`: weight 1. Cheap read of stored news items.
pub fn get_news() -> (r: ToolRegistration)
    ensures
        r == spec_get_news(),
{
    register_tool("get_news", 1, AuditScope::FilterAndCount, NumericBounds::NoBounds, false)
}

pub open spec fn spec_run_scenario() -> ToolRegistration {
    registration("run_scenario", 8, AuditScope::FullInput { redact: &[] }, NumericBounds::ScenarioInputs, false)
}

/// `run_scenario`: weight 8. Heaviest tier (simulation); projection only.
pub fn run_scenario() -> (r: ToolRegistration)
    ensures
        r == spec_run_scenario(),
{
    register_tool("run_scenario", 8, AuditScope::FullInput { redact: &[] }, NumericBounds::ScenarioInputs, false)
}

pub open spec fn spec_compare_scenarios() -> ToolRegistration {
    registration("compare_scenarios", 5, AuditScope::Custom("scenario_ids_list"), NumericBounds::NoBounds, false)
}

/// `compare_scenarios`: weight 5. Compound read of stored scenarios; logs only their ids.
pub fn compare_scenarios() -> (r: ToolRegistration)
    ensures
        r == spec_compare_scenarios(),
{
    register_tool("compare_scenarios", 5, AuditScope::Custom("scenario_ids_list"), NumericBounds::NoBounds, false)
}

/// The catalog in declaration order.
pub open spec fn catalog() -> Seq<ToolRegistration> {
    seq![spec_add_activity(), spec_list_activities(), spec_set_reminder(), spec_set_alert(), spec_get_news(), spec_run_scenario(), spec_compare_scenarios()]
}

/// All 7 descriptors of this catalog, in declaration order.
pub fn all() -> (r: [ToolRegistration; 7])
    ensures
        r@ == catalog(),
{
    let r = [
        add_activity(),
        list_activities(),
        set_reminder(),
        set_alert(),
        get_news(),
        run_scenario(),
        compare_scenarios(),
    ];
    assert(r@ =~= catalog());
    r
}

/// No two tools of the catalog share a name, and every weight lies in the
/// range the budget table admits.
pub proof fn lemma_catalog_well_formed()
    ensures
        distinct_names(catalog()),
        weights_in_range(catalog()),
{
    reveal_strlit("add_activity");
    reveal_strlit("list_activities");
    reveal_strlit("set_reminder");
    reveal_strlit("set_alert");
    reveal_strlit("get_news");
    reveal_strlit("run_scenario");
    reveal_strlit("compare_scenarios");
    assert(spec_add_activity().name@.len() != spec_list_activities().name@.len());
    assert(spec_add_activity().name@[0] != spec_set_reminder().name@[0]);
    assert(spec_add_activity().name@.len() != spec_set_alert().name@.len());
    assert(spec_add_activity().name@.len() != spec_get_news().name@.len());
    assert(spec_add_activity().name@[0] != spec_run_scenario().name@[0]);
    assert(spec_add_activity().name@.len() != spec_compare_scenarios().name@.len());
    assert(spec_list_activities().name@.len() != spec_set_reminder().name@.len());
    assert(spec_list_activities().name@.len() != spec_set_alert().name@.len());
    assert(spec_list_activities().name@.len() != spec_get_news().name@.len());
    assert(spec_list_activities().name@.len() != spec_run_scenario().name@.len());
    assert(spec_list_activities().name@.len() != spec_compare_scenarios().name@.len());
    assert(spec_set_reminder().name@.len() != spec_set_alert().name@.len());
    assert(spec_set_reminder().name@.len() != spec_get_news().name@.len());
    assert(spec_set_reminder().name@[0] != spec_run_scenario().name@[0]);
    assert(spec_set_reminder().name@.len() != spec_compare_scenarios().name@.len());
    assert(spec_set_alert().name@.len() != spec_get_news().name@.len());
    assert(spec_set_alert().name@.len() != spec_run_scenario().name@.len());
    assert(spec_set_alert().name@.len() != spec_compare_scenarios().name@.len());
    assert(spec_get_news().name@.len() != spec_run_scenario().name@.len());
    assert(spec_get_news().name@.len() != spec_compare_scenarios().name@.len());
    assert(spec_run_scenario().name@.len() != spec_compare_scenarios().name@.len());
    assert forall|i: int, j: int| 0 <= i < j < catalog().len() implies
        #[trigger] catalog()[i].name@ != #[trigger] catalog()[j].name@ by {
        if i == 0 && j == 1 { assert(catalog()[i] == spec_add_activity()); assert(catalog()[j] == spec_list_activities()); }
        if i == 0 && j == 2 { assert(catalog()[i] == spec_add_activity()); assert(catalog()[j] == spec_set_reminder()); }
        if i == 0 && j == 3 { assert(catalog()[i] == spec_add_activity()); assert(catalog()[j] == spec_set_alert()); }
        if i == 0 && j == 4 { assert(catalog()[i] == spec_add_activity()); assert(catalog()[j] == spec_get_news()); }
        if i == 0 && j == 5 { assert(catalog()[i] == spec_add_activity()); assert(catalog()[j] == spec_run_scenario()); }
        if i == 0 && j == 6 { assert(catalog()[i] == spec_add_activity()); assert(catalog()[j] == spec_compare_scenarios()); }
        if i == 1 && j == 2 { assert(catalog()[i] == spec_list_activities()); assert(catalog()[j] == spec_set_reminder()); }
        if i == 1 && j == 3 { assert(catalog()[i] == spec_list_activities()); assert(catalog()[j] == spec_set_alert()); }
        if i == 1 && j == 4 { assert(catalog()[i] == spec_list_activities()); assert(catalog()[j] == spec_get_news()); }
        if i == 1 && j == 5 { assert(catalog()[i] == spec_list_activities()); assert(catalog()[j] == spec_run_scenario()); }
        if i == 1 && j == 6 { assert(catalog()[i] == spec_list_activities()); assert(catalog()[j] == spec_compare_scenarios()); }
        if i == 2 && j == 3 { assert(catalog()[i] == spec_set_reminder()); assert(catalog()[j] == spec_set_alert()); }
        if i == 2 && j == 4 { assert(catalog()[i] == spec_set_reminder()); assert(catalog()[j] == spec_get_news()); }
        if i == 2 && j == 5 { assert(catalog()[i] == spec_set_reminder()); assert(catalog()[j] == spec_run_scenario()); }
        if i == 2 && j == 6 { assert(catalog()[i] == spec_set_reminder()); assert(catalog()[j] == spec_compare_scenarios()); }
        if i == 3 && j == 4 { assert(catalog()[i] == spec_set_alert()); assert(catalog()[j] == spec_get_news()); }
        if i == 3 && j == 5 { assert(catalog()[i] == spec_set_alert()); assert(catalog()[j] == spec_run_scenario()); }
        if i == 3 && j == 6 { assert(catalog()[i] == spec_set_alert()); assert(catalog()[j] == spec_compare_scenarios()); }
        if i == 4 && j == 5 { assert(catalog()[i] == spec_get_news()); assert(catalog()[j] == spec_run_scenario()); }
        if i == 4 && j == 6 { assert(catalog()[i] == spec_get_news()); assert(catalog()[j] == spec_compare_scenarios()); }
        if i == 5 && j == 6 { assert(catalog()[i] == spec_run_scenario()); assert(catalog()[j] == spec_compare_scenarios()); }
    }
}

/// Only `add_activity` writes to the Truth Ledger, and `run_scenario` carries
/// the heaviest weight of the catalog.
pub proof fn lemma_only_add_activity_emits()
    ensures
        forall|i: int| 0 <= i < catalog().len() ==>
            ((#[trigger] catalog()[i]).emits_truth_ledger <==> i == 0),
        forall|i: int| 0 <= i < catalog().len() ==>
            (#[trigger] catalog()[i]).cap_weight.spec_get() <= spec_run_scenario().cap_weight.spec_get(),
        spec_run_scenario().cap_weight.spec_get() == 8,
{
}

} // verus!
