//! Safety descriptors of the three holdings-mutation tools. All three write
//! to the Truth Ledger.
use vstd::prelude::*;

use crate::tool_registry::{
    distinct_names, register_tool, registration, weights_in_range, AuditScope, CapWeight,
    NumericBounds, ToolRegistration,
};

verus! {

broadcast use CapWeight::lemma_of;

pub open spec fn spec_create_holding() -> ToolRegistration {
    registration("create_holding", 5, AuditScope::FullInput { redact: &[] }, NumericBounds::Holding { qty_max: 1_000_000_000, cost_basis_max: 1_000_000_000 }, true)
}

/// `create_holding`: weight 5. Standard mutation budget; every argument logged; quantity and cost basis at most one billion.
pub fn create_holding() -> (r: ToolRegistration)
    ensures
        r == spec_create_holding(),
{
    register_tool("create_holding", 5, AuditScope::FullInput { redact: &[] }, NumericBounds::Holding { qty_max: 1_000_000_000, cost_basis_max: 1_000_000_000 }, true)
}

pub open spec fn spec_update_holding() -> ToolRegistration {
    registration("update_holding", 5, AuditScope::Diff, NumericBounds::Holding { qty_max: 1_000_000_000, cost_basis_max: 1_000_000_000 }, true)
}

/// `update_holding`: weight 5. Same budget and envelope as create; logs only the diff.
pub fn update_holding() -> (r: ToolRegistration)
    ensures
        r == spec_update_holding(),
{
    register_tool("update_holding", 5, AuditScope::Diff, NumericBounds::Holding { qty_max: 1_000_000_000, cost_basis_max: 1_000_000_000 }, true)
}

pub open spec fn spec_delete_holding() -> ToolRegistration {
    registration("delete_holding", 3, AuditScope::IdOnly, NumericBounds::NoBounds, true)
}

/// `delete_holding`: weight 3. An id lookup; logs only the holding id.
pub fn delete_holding() -> (r: ToolRegistration)
    ensures
        r == spec_delete_holding(),
{
    register_tool("delete_holding", 3, AuditScope::IdOnly, NumericBounds::NoBounds, true)
}

/// The catalog in declaration order.
pub open spec fn catalog() -> Seq<ToolRegistration> {
    seq![spec_create_holding(), spec_update_holding(), spec_delete_holding()]
}

/// All 3 descriptors of this catalog, in declaration order.
pub fn all() -> (r: [ToolRegistration; 3])
    ensures
        r@ == catalog(),
{
    let r = [
        create_holding(),
        update_holding(),
        delete_holding(),
    ];
    assert(r@ =~= catalog());
    r
}

/// No two tools of the catalog share a name, and every weight lies in the
/// range the budget table admits.
pub proof fn lemma_catalog_well_formed()
    ensures
        distinct_names(catalog()),
        weights_in_range(catalog()),
{
    reveal_strlit("create_holding");
    reveal_strlit("update_holding");
    reveal_strlit("delete_holding");
    assert(spec_create_holding().name@[0] != spec_update_holding().name@[0]);
    assert(spec_create_holding().name@[0] != spec_delete_holding().name@[0]);
    assert(spec_update_holding().name@[0] != spec_delete_holding().name@[0]);
    assert forall|i: int, j: int| 0 <= i < j < catalog().len() implies
        #[trigger] catalog()[i].name@ != #[trigger] catalog()[j].name@ by {
        if i == 0 && j == 1 { assert(catalog()[i] == spec_create_holding()); assert(catalog()[j] == spec_update_holding()); }
        if i == 0 && j == 2 { assert(catalog()[i] == spec_create_holding()); assert(catalog()[j] == spec_delete_holding()); }
        if i == 1 && j == 2 { assert(catalog()[i] == spec_update_holding()); assert(catalog()[j] == spec_delete_holding()); }
    }
}

/// Every holdings tool writes to the Truth Ledger, and create and update
/// share one numeric envelope.
pub proof fn lemma_all_emit_ledger()
    ensures
        forall|i: int| 0 <= i < catalog().len() ==> (#[trigger] catalog()[i]).emits_truth_ledger,
        spec_create_holding().numeric_bounds == spec_update_holding().numeric_bounds,
{
}

} // verus!
