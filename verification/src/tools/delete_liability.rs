//! Delete Liability: the confirm card for removing a liability. The card's
//! snapshot (which carries the principal) is assembled by the host from
//! the position settled here; the tool itself never writes.
use vstd::prelude::*;

use std::sync::Arc;

use crate::accounts::copy_opt;
use crate::holdings::{holding_resolution, resolve_holding, Holding, KindFilter};
use crate::text::{decimal, decimal_string, owned, push_str};
use crate::tools::common::strings_view;
use crate::text::opt_chars;
use crate::tools::env::AiEnvironment;
use crate::tools::resolve::{positions, Resolution, Resolved};

verus! {

/// What the assistant passes.
pub struct DeleteLiabilityArgs {
    /// The asset's id, name or display code (or part of a name or code).
    pub liability_ref: String,
    /// The user's stated reason, shown on the confirm card.
    pub reason: Option<String>,
}

/// Whether the user may confirm, and why not.
pub struct DeletionCheck {
    pub resolved: bool,
    /// Positions (in the holdings list) of the holdings an ambiguous
    /// reference matched.
    pub candidates: Vec<usize>,
    pub warnings: Vec<String>,
    pub is_valid: bool,
}

/// The settled card: which holding (by position) would go.
pub struct HoldingDeletion {
    pub target: Option<usize>,
    pub reason: Option<String>,
    pub validation: DeletionCheck,
}

/// Proposes removing the asset; never writes.
pub struct DeleteLiabilityTool<E: AiEnvironment> {
    env: Arc<E>,
}

impl<E: AiEnvironment> DeleteLiabilityTool<E> {
    pub fn new(env: Arc<E>) -> (r: Self)
        ensures
            r.env() == env,
    {
        DeleteLiabilityTool { env }
    }

    pub closed spec fn env(&self) -> Arc<E> {
        self.env
    }
}

pub open spec fn irreversible_warning() -> Seq<char> {
    "Deleting a liability is irreversible. The amortization schedule and any payoff history attached to it go away too. If you've actually paid this off, consider marking it inactive instead so the history survives — ask before deleting if unsure."@
}

pub open spec fn ambiguous_warning(reference: Seq<char>, n: nat) -> Seq<char> {
    "\""@ + reference + "\" matched "@ + decimal(n) + " liabilities. Ask the user which one they mean before retrying."@
}

pub open spec fn not_found_warning(reference: Seq<char>) -> Seq<char> {
    "No liability matching \""@ + reference + "\" found. Use get_holdings to list liabilities first."@
}

pub open spec fn missing_ref_warning() -> Seq<char> {
    "liabilityRef is required — give the liability name, display code, or id."@
}

/// The card for deleting what `args` names among `holdings`.
pub open spec fn deletion(r: HoldingDeletion, args: DeleteLiabilityArgs, holdings: Seq<Holding>) -> bool {
    &&& opt_chars(r.reason) == opt_chars(args.reason)
    &&& match holding_resolution(holdings, KindFilter::Liabilities, args.liability_ref@) {
        Resolved::Single(i) => {
            &&& r.target == Some(i as usize)
            &&& r.validation.resolved
            &&& r.validation.candidates@.len() == 0
            &&& strings_view(r.validation.warnings@) == seq![irreversible_warning()]
            &&& r.validation.is_valid
        },
        res => {
            &&& r.target is None
            &&& !r.validation.resolved
            &&& !r.validation.is_valid
            &&& match res {
                Resolved::Ambiguous(found) => {
                    &&& positions(r.validation.candidates@) == found
                    &&& strings_view(r.validation.warnings@) == seq![ambiguous_warning(args.liability_ref@, found.len())]
                },
                Resolved::NotFound => {
                    &&& r.validation.candidates@.len() == 0
                    &&& strings_view(r.validation.warnings@) == seq![not_found_warning(args.liability_ref@)]
                },
                _ => {
                    &&& r.validation.candidates@.len() == 0
                    &&& strings_view(r.validation.warnings@) == seq![missing_ref_warning()]
                },
            }
        },
    }
}

impl<E: AiEnvironment> DeleteLiabilityTool<E> {
    /// The card for deleting the asset `args` names among the user's
    /// holdings (the reference is resolved among liabilities only).
    pub fn build_output(&self, args: DeleteLiabilityArgs, holdings: &Vec<Holding>) -> (r: HoldingDeletion)
        ensures
            deletion(r, args, holdings@),
    {
        let res = resolve_holding(holdings, KindFilter::Liabilities, args.liability_ref.as_str());
        let reason = copy_opt(&args.reason);
        let (target, candidates, warning, resolved) = match res {
            Resolution::Single(i) => (Some(i), Vec::new(), owned("Deleting a liability is irreversible. The amortization schedule and any payoff history attached to it go away too. If you've actually paid this off, consider marking it inactive instead so the history survives — ask before deleting if unsure."), true),
            Resolution::Ambiguous(found) => {
                let mut w = owned("\"");
                push_str(&mut w, args.liability_ref.as_str());
                push_str(&mut w, "\" matched ");
                let count = decimal_string(found.len());
                push_str(&mut w, count.as_str());
                push_str(&mut w, " liabilities. Ask the user which one they mean before retrying.");
                (None, found, w, false)
            },
            Resolution::NotFound => {
                let mut w = owned("No liability matching \"");
                push_str(&mut w, args.liability_ref.as_str());
                push_str(&mut w, "\" found. Use get_holdings to list liabilities first.");
                (None, Vec::new(), w, false)
            },
            Resolution::Missing => (None, Vec::new(), owned("liabilityRef is required — give the liability name, display code, or id."), false),
        };
        let ghost wv = warning@;
        let mut warnings: Vec<String> = Vec::new();
        warnings.push(warning);
        assert(strings_view(warnings@) =~= seq![wv]);
        HoldingDeletion {
            target,
            reason,
            validation: DeletionCheck { resolved, candidates, warnings, is_valid: resolved },
        }
    }
}

} // verus!
