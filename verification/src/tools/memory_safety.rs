//! Safety descriptors of the two user-memory tools. Memory edits are not
//! financial mutations: neither writes to the Truth Ledger.
use vstd::prelude::*;

use crate::tool_registry::{
    distinct_names, register_tool, registration, weights_in_range, AuditScope, CapWeight,
    NumericBounds, ToolRegistration,
};

verus! {

broadcast use CapWeight::lemma_of;

pub open spec fn spec_get_user_memory() -> ToolRegistration {
    registration("get_user_memory", 1, AuditScope::Custom("fact_keys_list"), NumericBounds::NoBounds, false)
}

/// `get_user_memory`: weight 1. Reads fact keys; logs the keys, never the values.
pub fn get_user_memory() -> (r: ToolRegistration)
    ensures
        r == spec_get_user_memory(),
{
    register_tool("get_user_memory", 1, AuditScope::Custom("fact_keys_list"), NumericBounds::NoBounds, false)
}

pub open spec fn spec_update_user_memory() -> ToolRegistration {
    registration("update_user_memory", 3, AuditScope::Diff, NumericBounds::PerFactType, false)
}

/// `update_user_memory`: weight 3. Writes a fact diff; bounds looked up per fact type.
pub fn update_user_memory() -> (r: ToolRegistration)
    ensures
        r == spec_update_user_memory(),
{
    register_tool("update_user_memory", 3, AuditScope::Diff, NumericBounds::PerFactType, false)
}

/// The catalog in declaration order.
pub open spec fn catalog() -> Seq<ToolRegistration> {
    seq![spec_get_user_memory(), spec_update_user_memory()]
}

/// All 2 descriptors of this catalog, in declaration order.
pub fn all() -> (r: [ToolRegistration; 2])
    ensures
        r@ == catalog(),
{
    let r = [
        get_user_memory(),
        update_user_memory(),
    ];
    assert(r@ =~= catalog());
    r
}

/// No two tools of the catalog share a name, and every weight lies in the
/// range the budget table admits.
pub proof fn lemma_catalog_well_formed()
    ensures
        distinct_names(catalog()),
        weights_in_range(catalog()),
{
    reveal_strlit("get_user_memory");
    reveal_strlit("update_user_memory");
    assert(spec_get_user_memory().name@.len() != spec_update_user_memory().name@.len());
    assert forall|i: int, j: int| 0 <= i < j < catalog().len() implies
        #[trigger] catalog()[i].name@ != #[trigger] catalog()[j].name@ by {
        if i == 0 && j == 1 { assert(catalog()[i] == spec_get_user_memory()); assert(catalog()[j] == spec_update_user_memory()); }
    }
}

/// Neither memory tool writes to the Truth Ledger, and the write costs more
/// than the read.
pub proof fn lemma_memory_boundary()
    ensures
        forall|i: int| 0 <= i < catalog().len() ==> !(#[trigger] catalog()[i]).emits_truth_ledger,
        spec_update_user_memory().cap_weight.spec_get() > spec_get_user_memory().cap_weight.spec_get(),
{
}

} // verus!
