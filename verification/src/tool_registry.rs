//! Safety descriptors for the agent's tools: how expensive a call is, what
//! the audit log keeps of it, which numeric envelope its inputs must respect,
//! and whether it writes to the Truth Ledger.
use vstd::prelude::*;

verus! {

/// What the dispatcher writes to the audit log for one call of a tool.
#[derive(Debug, Clone, Copy, PartialEq, Eq)]
pub enum AuditScope {
    /// Every argument, minus the named fields.
    FullInput { redact: &'static [&'static str] },
    /// Only the before/after difference of the changed fields.
    Diff,
    /// Only the identifier of the target.
    IdOnly,
    /// The identifier and the date window.
    IdAndDateRange,
    /// The symbol and the date window.
    SymbolAndDateRange,
    /// The currency pair and the as-of date.
    Pair,
    /// The filter arguments and the number of rows returned.
    FilterAndCount,
    /// A tool-specific description of what is logged.
    Custom(&'static str),
}

/// The numeric envelope the dispatcher enforces on a tool's inputs.
#[derive(Debug, Clone, Copy, PartialEq, Eq)]
pub enum NumericBounds {
    NoBounds,
    /// Holding quantity and cost basis, each at most the given whole amount.
    Holding { qty_max: u64, cost_basis_max: u64 },
    /// `as_of_date` within `(issuance, maturity]`.
    BondAsOf,
    /// Documents of an approved kind, at most `max_words` words.
    Document { approved_kinds: &'static [&'static str], max_words: u32 },
    /// `confidence` in `[0, 1]`, `central_estimate >= 0`.
    EstimateRange,
    /// Bounds looked up per memory fact type.
    PerFactType,
    /// Bounds looked up per activity type.
    PerActivityType,
    /// A due date in `(now, now + max_horizon_secs]`.
    DateFuture { max_horizon_secs: u64 },
    /// Thresholds looked up per asset class.
    AssetClassThreshold,
    /// Per-input bounds of a scenario run.
    ScenarioInputs,
}

/// Per-turn budget weight of one call: between 1 and 8.
#[derive(Debug, Clone, Copy, PartialEq, Eq)]
pub struct CapWeight {
    weight: u8,
}

impl CapWeight {
    #[verifier::type_invariant]
    spec fn in_range(self) -> bool {
        1 <= self.weight <= 8
    }

    pub closed spec fn spec_get(&self) -> u8 {
        self.weight
    }

    /// The weight `w`.
    pub closed spec fn of(w: u8) -> CapWeight {
        CapWeight { weight: w }
    }

    pub broadcast proof fn lemma_of(w: u8)
        ensures
            #[trigger] CapWeight::of(w).spec_get() == w,
    {
    }

    pub fn new(weight: u8) -> (r: CapWeight)
        requires
            1 <= weight <= 8,
        ensures
            r == CapWeight::of(weight),
    {
        CapWeight { weight }
    }

    #[verifier::when_used_as_spec(spec_get)]
    pub fn get(&self) -> (r: u8)
        ensures
            r == self.spec_get(),
            1 <= r <= 8,
    {
        proof {
            use_type_invariant(self);
        }
        self.weight
    }
}

/// The safety contract a tool is registered with.
#[derive(Debug, Clone, Copy, PartialEq, Eq)]
pub struct ToolRegistration {
    pub name: &'static str,
    pub cap_weight: CapWeight,
    pub audit_scope: AuditScope,
    pub numeric_bounds: NumericBounds,
    pub emits_truth_ledger: bool,
}

/// Builds the descriptor a tool is registered with. The weight must lie in
/// the range the budget table admits.
pub fn register_tool(
    name: &'static str,
    cap_weight: u8,
    audit_scope: AuditScope,
    numeric_bounds: NumericBounds,
    emits_truth_ledger: bool,
) -> (r: ToolRegistration)
    requires
        1 <= cap_weight <= 8,
    ensures
        r == registration(name, cap_weight, audit_scope, numeric_bounds, emits_truth_ledger),
{
    ToolRegistration {
        name,
        cap_weight: CapWeight::new(cap_weight),
        audit_scope,
        numeric_bounds,
        emits_truth_ledger,
    }
}

/// The descriptor `register_tool` builds from these fields.
pub open spec fn registration(
    name: &'static str,
    cap_weight: u8,
    audit_scope: AuditScope,
    numeric_bounds: NumericBounds,
    emits_truth_ledger: bool,
) -> ToolRegistration {
    ToolRegistration {
        name,
        cap_weight: CapWeight::of(cap_weight),
        audit_scope,
        numeric_bounds,
        emits_truth_ledger,
    }
}

/// The names of a catalog's descriptors, in order.
pub open spec fn names(regs: Seq<ToolRegistration>) -> Seq<Seq<char>> {
    regs.map_values(|r: ToolRegistration| r.name@)
}

/// No two descriptors of a catalog share a name.
pub open spec fn distinct_names(regs: Seq<ToolRegistration>) -> bool {
    forall|i: int, j: int|
        0 <= i < j < regs.len() ==> #[trigger] regs[i].name@ != #[trigger] regs[j].name@
}

/// Every weight of a catalog lies in the range the budget table admits.
pub open spec fn weights_in_range(regs: Seq<ToolRegistration>) -> bool {
    forall|i: int| 0 <= i < regs.len() ==> 1 <= #[trigger] regs[i].cap_weight.spec_get() <= 8
}

} // verus!
