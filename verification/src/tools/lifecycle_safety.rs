//! Safety descriptors of the operational tools (sync, reports, documents,
//! price estimates, Sharia screening). None writes to the Truth Ledger.
use vstd::prelude::*;

use crate::tool_registry::{
    distinct_names, register_tool, registration, weights_in_range, AuditScope, CapWeight,
    NumericBounds, ToolRegistration,
};

verus! {

broadcast use CapWeight::lemma_of;

pub open spec fn spec_sync_account() -> ToolRegistration {
    registration("sync_account", 5, AuditScope::FullInput { redact: &["plaid_access_token", "snaptrade_user_secret"] }, NumericBounds::NoBounds, false)
}

/// `sync_account`: weight 5. Kicks off a provider sync; provider secrets are redacted from the log.
pub fn sync_account() -> (r: ToolRegistration)
    ensures
        r == spec_sync_account(),
{
    register_tool("sync_account", 5, AuditScope::FullInput { redact: &["plaid_access_token", "snaptrade_user_secret"] }, NumericBounds::NoBounds, false)
}

pub open spec fn spec_generate_report() -> ToolRegistration {
    registration("generate_report", 3, AuditScope::Custom("report_type_and_scope"), NumericBounds::NoBounds, false)
}

/// `generate_report`: weight 3. Composes tabular data; logs the report type and scope.
pub fn generate_report() -> (r: ToolRegistration)
    ensures
        r == spec_generate_report(),
{
    register_tool("generate_report", 3, AuditScope::Custom("report_type_and_scope"), NumericBounds::NoBounds, false)
}

pub open spec fn spec_summarize_document() -> ToolRegistration {
    registration("summarize_document", 8, AuditScope::Custom("document_kind_and_word_count"), NumericBounds::Document { approved_kinds: &["pdf", "csv", "xlsx", "txt"], max_words: 50_000 }, false)
}

/// `summarize_document`: weight 8. Heaviest tool; approved document kinds only, at most 50,000 words.
pub fn summarize_document() -> (r: ToolRegistration)
    ensures
        r == spec_summarize_document(),
{
    register_tool("summarize_document", 8, AuditScope::Custom("document_kind_and_word_count"), NumericBounds::Document { approved_kinds: &["pdf", "csv", "xlsx", "txt"], max_words: 50_000 }, false)
}

pub open spec fn spec_estimate_price() -> ToolRegistration {
    registration("estimate_price", 5, AuditScope::Custom("asset_id_and_as_of"), NumericBounds::EstimateRange, false)
}

/// `estimate_price`: weight 5. Surfaces a draft estimate the user must accept; never writes.
pub fn estimate_price() -> (r: ToolRegistration)
    ensures
        r == spec_estimate_price(),
{
    register_tool("estimate_price", 5, AuditScope::Custom("asset_id_and_as_of"), NumericBounds::EstimateRange, false)
}

pub open spec fn spec_find_sharia_status() -> ToolRegistration {
    registration("find_sharia_status", 1, AuditScope::Custom("symbol"), NumericBounds::NoBounds, false)
}

/// `find_sharia_status`: weight 1. Single-symbol screening lookup; logs the symbol.
pub fn find_sharia_status() -> (r: ToolRegistration)
    ensures
        r == spec_find_sharia_status(),
{
    register_tool("find_sharia_status", 1, AuditScope::Custom("symbol"), NumericBounds::NoBounds, false)
}

/// The catalog in declaration order.
pub open spec fn catalog() -> Seq<ToolRegistration> {
    seq![spec_sync_account(), spec_generate_report(), spec_summarize_document(), spec_estimate_price(), spec_find_sharia_status()]
}

/// All 5 descriptors of this catalog, in declaration order.
pub fn all() -> (r: [ToolRegistration; 5])
    ensures
        r@ == catalog(),
{
    let r = [
        sync_account(),
        generate_report(),
        summarize_document(),
        estimate_price(),
        find_sharia_status(),
    ];
    assert(r@ =~= catalog());
    r
}

/// No two tools of the catalog share a name, and every weight lies in the
/// range the budget table admits.
pub proof fn lemma_catalog_well_formed()
    ensures
        distinct_names(catalog()),
        weights_in_range(catalog()),
{
    reveal_strlit("sync_account");
    reveal_strlit("generate_report");
    reveal_strlit("summarize_document");
    reveal_strlit("estimate_price");
    reveal_strlit("find_sharia_status");
    assert(spec_sync_account().name@.len() != spec_generate_report().name@.len());
    assert(spec_sync_account().name@.len() != spec_summarize_document().name@.len());
    assert(spec_sync_account().name@.len() != spec_estimate_price().name@.len());
    assert(spec_sync_account().name@.len() != spec_find_sharia_status().name@.len());
    assert(spec_generate_report().name@.len() != spec_summarize_document().name@.len());
    assert(spec_generate_report().name@.len() != spec_estimate_price().name@.len());
    assert(spec_generate_report().name@.len() != spec_find_sharia_status().name@.len());
    assert(spec_summarize_document().name@.len() != spec_estimate_price().name@.len());
    assert(spec_summarize_document().name@[0] != spec_find_sharia_status().name@[0]);
    assert(spec_estimate_price().name@.len() != spec_find_sharia_status().name@.len());
    assert forall|i: int, j: int| 0 <= i < j < catalog().len() implies
        #[trigger] catalog()[i].name@ != #[trigger] catalog()[j].name@ by {
        if i == 0 && j == 1 { assert(catalog()[i] == spec_sync_account()); assert(catalog()[j] == spec_generate_report()); }
        if i == 0 && j == 2 { assert(catalog()[i] == spec_sync_account()); assert(catalog()[j] == spec_summarize_document()); }
        if i == 0 && j == 3 { assert(catalog()[i] == spec_sync_account()); assert(catalog()[j] == spec_estimate_price()); }
        if i == 0 && j == 4 { assert(catalog()[i] == spec_sync_account()); assert(catalog()[j] == spec_find_sharia_status()); }
        if i == 1 && j == 2 { assert(catalog()[i] == spec_generate_report()); assert(catalog()[j] == spec_summarize_document()); }
        if i == 1 && j == 3 { assert(catalog()[i] == spec_generate_report()); assert(catalog()[j] == spec_estimate_price()); }
        if i == 1 && j == 4 { assert(catalog()[i] == spec_generate_report()); assert(catalog()[j] == spec_find_sharia_status()); }
        if i == 2 && j == 3 { assert(catalog()[i] == spec_summarize_document()); assert(catalog()[j] == spec_estimate_price()); }
        if i == 2 && j == 4 { assert(catalog()[i] == spec_summarize_document()); assert(catalog()[j] == spec_find_sharia_status()); }
        if i == 3 && j == 4 { assert(catalog()[i] == spec_estimate_price()); assert(catalog()[j] == spec_find_sharia_status()); }
    }
}

/// No lifecycle tool writes to the Truth Ledger, and `sync_account` redacts
/// exactly the two provider secrets.
pub proof fn lemma_lifecycle_read_only()
    ensures
        forall|i: int| 0 <= i < catalog().len() ==> !(#[trigger] catalog()[i]).emits_truth_ledger,
        spec_sync_account().audit_scope matches AuditScope::FullInput { redact }
            && redact@.len() == 2
            && redact@[0]@ == "plaid_access_token"@
            && redact@[1]@ == "snaptrade_user_secret"@,
{
    reveal_strlit("plaid_access_token");
    reveal_strlit("snaptrade_user_secret");
}

} // verus!
