//! Safety descriptors of the read-only financial computation tools. None of
//! them writes to the Truth Ledger; all are cheap reads.
use vstd::prelude::*;

use crate::tool_registry::{
    distinct_names, register_tool, registration, weights_in_range, AuditScope, CapWeight,
    NumericBounds, ToolRegistration,
};

verus! {

broadcast use CapWeight::lemma_of;

pub open spec fn spec_compute_net_worth() -> ToolRegistration {
    registration("compute_net_worth", 2, AuditScope::Custom("base_currency"), NumericBounds::NoBounds, false)
}

/// `compute_net_worth`: weight 2. Sums across all holdings and FX; logs only the base currency.
pub fn compute_net_worth() -> (r: ToolRegistration)
    ensures
        r == spec_compute_net_worth(),
{
    register_tool("compute_net_worth", 2, AuditScope::Custom("base_currency"), NumericBounds::NoBounds, false)
}

pub open spec fn spec_get_holding_history() -> ToolRegistration {
    registration("get_holding_history", 1, AuditScope::IdAndDateRange, NumericBounds::NoBounds, false)
}

/// `get_holding_history`: weight 1. Single-holding history read; logs the holding id and window.
pub fn get_holding_history() -> (r: ToolRegistration)
    ensures
        r == spec_get_holding_history(),
{
    register_tool("get_holding_history", 1, AuditScope::IdAndDateRange, NumericBounds::NoBounds, false)
}

pub open spec fn spec_get_market_data() -> ToolRegistration {
    registration("get_market_data", 1, AuditScope::SymbolAndDateRange, NumericBounds::NoBounds, false)
}

/// `get_market_data`: weight 1. Symbol and window read; logs both.
pub fn get_market_data() -> (r: ToolRegistration)
    ensures
        r == spec_get_market_data(),
{
    register_tool("get_market_data", 1, AuditScope::SymbolAndDateRange, NumericBounds::NoBounds, false)
}

pub open spec fn spec_get_fx_rate() -> ToolRegistration {
    registration("get_fx_rate", 1, AuditScope::Pair, NumericBounds::NoBounds, false)
}

/// `get_fx_rate`: weight 1. Single pair and as-of-date lookup; logs the pair.
pub fn get_fx_rate() -> (r: ToolRegistration)
    ensures
        r == spec_get_fx_rate(),
{
    register_tool("get_fx_rate", 1, AuditScope::Pair, NumericBounds::NoBounds, false)
}

pub open spec fn spec_bond_analytics() -> ToolRegistration {
    registration("bond_analytics", 3, AuditScope::Custom("bond_id_and_computation"), NumericBounds::BondAsOf, false)
}

/// `bond_analytics`: weight 3. Duration / convexity / yield; the as-of date must lie in (issuance, maturity].
pub fn bond_analytics() -> (r: ToolRegistration)
    ensures
        r == spec_bond_analytics(),
{
    register_tool("bond_analytics", 3, AuditScope::Custom("bond_id_and_computation"), NumericBounds::BondAsOf, false)
}

/// The catalog in declaration order.
pub open spec fn catalog() -> Seq<ToolRegistration> {
    seq![spec_compute_net_worth(), spec_get_holding_history(), spec_get_market_data(), spec_get_fx_rate(), spec_bond_analytics()]
}

/// All 5 descriptors of this catalog, in declaration order.
pub fn all() -> (r: [ToolRegistration; 5])
    ensures
        r@ == catalog(),
{
    let r = [
        compute_net_worth(),
        get_holding_history(),
        get_market_data(),
        get_fx_rate(),
        bond_analytics(),
    ];
    assert(r@ =~= catalog());
    r
}

/// No two tools of the catalog share a name, and every weight lies in the
/// range the budget table admits.
pub proof fn lemma_catalog_well_formed()
    ensures
        distinct_names(catalog()),
        weights_in_range(catalog()),
{
    reveal_strlit("compute_net_worth");
    reveal_strlit("get_holding_history");
    reveal_strlit("get_market_data");
    reveal_strlit("get_fx_rate");
    reveal_strlit("bond_analytics");
    assert(spec_compute_net_worth().name@.len() != spec_get_holding_history().name@.len());
    assert(spec_compute_net_worth().name@.len() != spec_get_market_data().name@.len());
    assert(spec_compute_net_worth().name@.len() != spec_get_fx_rate().name@.len());
    assert(spec_compute_net_worth().name@.len() != spec_bond_analytics().name@.len());
    assert(spec_get_holding_history().name@.len() != spec_get_market_data().name@.len());
    assert(spec_get_holding_history().name@.len() != spec_get_fx_rate().name@.len());
    assert(spec_get_holding_history().name@.len() != spec_bond_analytics().name@.len());
    assert(spec_get_market_data().name@.len() != spec_get_fx_rate().name@.len());
    assert(spec_get_market_data().name@.len() != spec_bond_analytics().name@.len());
    assert(spec_get_fx_rate().name@.len() != spec_bond_analytics().name@.len());
    assert forall|i: int, j: int| 0 <= i < j < catalog().len() implies
        #[trigger] catalog()[i].name@ != #[trigger] catalog()[j].name@ by {
        if i == 0 && j == 1 { assert(catalog()[i] == spec_compute_net_worth()); assert(catalog()[j] == spec_get_holding_history()); }
        if i == 0 && j == 2 { assert(catalog()[i] == spec_compute_net_worth()); assert(catalog()[j] == spec_get_market_data()); }
        if i == 0 && j == 3 { assert(catalog()[i] == spec_compute_net_worth()); assert(catalog()[j] == spec_get_fx_rate()); }
        if i == 0 && j == 4 { assert(catalog()[i] == spec_compute_net_worth()); assert(catalog()[j] == spec_bond_analytics()); }
        if i == 1 && j == 2 { assert(catalog()[i] == spec_get_holding_history()); assert(catalog()[j] == spec_get_market_data()); }
        if i == 1 && j == 3 { assert(catalog()[i] == spec_get_holding_history()); assert(catalog()[j] == spec_get_fx_rate()); }
        if i == 1 && j == 4 { assert(catalog()[i] == spec_get_holding_history()); assert(catalog()[j] == spec_bond_analytics()); }
        if i == 2 && j == 3 { assert(catalog()[i] == spec_get_market_data()); assert(catalog()[j] == spec_get_fx_rate()); }
        if i == 2 && j == 4 { assert(catalog()[i] == spec_get_market_data()); assert(catalog()[j] == spec_bond_analytics()); }
        if i == 3 && j == 4 { assert(catalog()[i] == spec_get_fx_rate()); assert(catalog()[j] == spec_bond_analytics()); }
    }
}

/// None of the computation tools writes to the Truth Ledger.
pub proof fn lemma_all_read_only()
    ensures
        forall|i: int| 0 <= i < catalog().len() ==> !(#[trigger] catalog()[i]).emits_truth_ledger,
{
}

} // verus!
