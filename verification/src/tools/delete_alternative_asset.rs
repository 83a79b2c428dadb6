//! Delete Alternative Asset: the confirm card for removing a property,
//! vehicle, collectible, precious-metal holding or private-equity stake.
//! The tool itself never writes.
use vstd::prelude::*;

use std::sync::Arc;

use crate::accounts::copy_opt;
use crate::holdings::{asset_id, asset_id_of, holding_resolution, resolve_holding, symbol, symbol_of, AssetKind, Holding, KindFilter};
use crate::text::{decimal, decimal_string, owned, push_str};
use crate::tools::common::strings_view;
use crate::text::opt_chars;
use crate::tools::env::AiEnvironment;
use crate::tools::resolve::{positions, Resolution, Resolved};

verus! {

/// What the assistant passes.
pub struct DeleteAlternativeAssetArgs {
    /// The asset's id, name or display code (or part of a name or code).
    pub asset_ref: String,
    /// The user's stated reason, shown on the confirm card.
    pub reason: Option<String>,
}

/// Whether the user may confirm, and why not.
pub struct DeletionCheck {
    pub resolved: bool,
    /// Positions (in the holdings list) of the holdings an ambiguous
    /// reference matched.
    pub candidates: Vec<usize>,
    pub warnings: Vec<String>,
    pub is_valid: bool,
}

/// The settled card: which holding (by position) would go.
pub struct HoldingDeletion {
    pub target: Option<usize>,
    pub reason: Option<String>,
    pub validation: DeletionCheck,
}

/// The asset about to be removed (blank when unresolved).
pub struct AssetSnapshot {
    pub id: String,
    pub name: String,
    /// PROPERTY, VEHICLE, COLLECTIBLE, PRECIOUS_METAL, PRIVATE_EQUITY or OTHER.
    pub kind: String,
    pub display_code: Option<String>,
    pub currency: String,
}

/// Proposes removing the asset; never writes.
pub struct DeleteAlternativeAssetTool<E: AiEnvironment> {
    env: Arc<E>,
}

impl<E: AiEnvironment> DeleteAlternativeAssetTool<E> {
    pub fn new(env: Arc<E>) -> (r: Self)
        ensures
            r.env() == env,
    {
        DeleteAlternativeAssetTool { env }
    }

    pub closed spec fn env(&self) -> Arc<E> {
        self.env
    }
}

pub open spec fn irreversible_warning() -> Seq<char> {
    "Deleting this asset is irreversible. Activities tied to it (purchase, valuations, sale) will cascade-delete with it. If the user sold the asset and wants the history kept, record a TRANSFER_OUT or SELL activity instead — that closes the position without losing the audit trail."@
}

pub open spec fn ambiguous_warning(reference: Seq<char>, n: nat) -> Seq<char> {
    "\""@ + reference + "\" matched "@ + decimal(n) + " alternative assets. Ask the user which one they mean before retrying."@
}

pub open spec fn not_found_warning(reference: Seq<char>) -> Seq<char> {
    "No alternative asset matching \""@ + reference + "\" found among PROPERTY / VEHICLE / COLLECTIBLE / PRECIOUS_METAL / PRIVATE_EQUITY rows. Use get_holdings to list them."@
}

pub open spec fn missing_ref_warning() -> Seq<char> {
    "assetRef is required — give the asset name, display code, or id."@
}

/// The card for deleting what `args` names among `holdings`.
pub open spec fn deletion(r: HoldingDeletion, args: DeleteAlternativeAssetArgs, holdings: Seq<Holding>) -> bool {
    &&& opt_chars(r.reason) == opt_chars(args.reason)
    &&& match holding_resolution(holdings, KindFilter::Alternatives, args.asset_ref@) {
        Resolved::Single(i) => {
            &&& r.target == Some(i as usize)
            &&& r.validation.resolved
            &&& r.validation.candidates@.len() == 0
            &&& strings_view(r.validation.warnings@) == seq![irreversible_warning()]
            &&& r.validation.is_valid
        },
        res => {
            &&& r.target is None
            &&& !r.validation.resolved
            &&& !r.validation.is_valid
            &&& match res {
                Resolved::Ambiguous(found) => {
                    &&& positions(r.validation.candidates@) == found
                    &&& strings_view(r.validation.warnings@) == seq![ambiguous_warning(args.asset_ref@, found.len())]
                },
                Resolved::NotFound => {
                    &&& r.validation.candidates@.len() == 0
                    &&& strings_view(r.validation.warnings@) == seq![not_found_warning(args.asset_ref@)]
                },
                _ => {
                    &&& r.validation.candidates@.len() == 0
                    &&& strings_view(r.validation.warnings@) == seq![missing_ref_warning()]
                },
            }
        },
    }
}

impl<E: AiEnvironment> DeleteAlternativeAssetTool<E> {
    /// The card for deleting the asset `args` names among the user's
    /// holdings (the reference is resolved among alternatives only).
    pub fn build_output(&self, args: DeleteAlternativeAssetArgs, holdings: &Vec<Holding>) -> (r: HoldingDeletion)
        ensures
            deletion(r, args, holdings@),
    {
        let res = resolve_holding(holdings, KindFilter::Alternatives, args.asset_ref.as_str());
        let reason = copy_opt(&args.reason);
        let (target, candidates, warning, resolved) = match res {
            Resolution::Single(i) => (Some(i), Vec::new(), owned("Deleting this asset is irreversible. Activities tied to it (purchase, valuations, sale) will cascade-delete with it. If the user sold the asset and wants the history kept, record a TRANSFER_OUT or SELL activity instead — that closes the position without losing the audit trail."), true),
            Resolution::Ambiguous(found) => {
                let mut w = owned("\"");
                push_str(&mut w, args.asset_ref.as_str());
                push_str(&mut w, "\" matched ");
                let count = decimal_string(found.len());
                push_str(&mut w, count.as_str());
                push_str(&mut w, " alternative assets. Ask the user which one they mean before retrying.");
                (None, found, w, false)
            },
            Resolution::NotFound => {
                let mut w = owned("No alternative asset matching \"");
                push_str(&mut w, args.asset_ref.as_str());
                push_str(&mut w, "\" found among PROPERTY / VEHICLE / COLLECTIBLE / PRECIOUS_METAL / PRIVATE_EQUITY rows. Use get_holdings to list them.");
                (None, Vec::new(), w, false)
            },
            Resolution::Missing => (None, Vec::new(), owned("assetRef is required — give the asset name, display code, or id."), false),
        };
        let ghost wv = warning@;
        let mut warnings: Vec<String> = Vec::new();
        warnings.push(warning);
        assert(strings_view(warnings@) =~= seq![wv]);
        HoldingDeletion {
            target,
            reason,
            validation: DeletionCheck { resolved, candidates, warnings, is_valid: resolved },
        }
    }
}

/// The label shown for an asset kind.
pub open spec fn kind_label(k: Option<AssetKind>) -> Seq<char> {
    match k {
        Some(AssetKind::Property) => "PROPERTY"@,
        Some(AssetKind::Vehicle) => "VEHICLE"@,
        Some(AssetKind::Collectible) => "COLLECTIBLE"@,
        Some(AssetKind::PreciousMetal) => "PRECIOUS_METAL"@,
        Some(AssetKind::PrivateEquity) => "PRIVATE_EQUITY"@,
        _ => "OTHER"@,
    }
}

/// `s` is the snapshot of holding `h`: its asset id, name (or "Asset"),
/// kind label, symbol when non-empty, and currency.
pub open spec fn snapshot_of(s: AssetSnapshot, h: Holding) -> bool {
    &&& s.id@ == asset_id_of(h)
    &&& s.name@ == match h.instrument {
        Some(i) => match i.name {
            Some(n) => n@,
            None => "Asset"@,
        },
        None => "Asset"@,
    }
    &&& s.kind@ == kind_label(h.asset_kind)
    &&& opt_chars(s.display_code) == if symbol_of(h).len() > 0 {
        Some(symbol_of(h))
    } else {
        None
    }
    &&& s.currency@ == h.local_currency@
}

fn kind_label_exec(k: Option<AssetKind>) -> (r: String)
    ensures
        r@ == kind_label(k),
{
    match k {
        Some(AssetKind::Property) => owned("PROPERTY"),
        Some(AssetKind::Vehicle) => owned("VEHICLE"),
        Some(AssetKind::Collectible) => owned("COLLECTIBLE"),
        Some(AssetKind::PreciousMetal) => owned("PRECIOUS_METAL"),
        Some(AssetKind::PrivateEquity) => owned("PRIVATE_EQUITY"),
        _ => owned("OTHER"),
    }
}

/// The confirm-card snapshot of a holding.
pub fn snapshot(h: &Holding) -> (s: AssetSnapshot)
    ensures
        snapshot_of(s, *h),
{
    let name = match &h.instrument {
        Some(i) => match &i.name {
            Some(n) => owned(n.as_str()),
            None => owned("Asset"),
        },
        None => owned("Asset"),
    };
    let sym = symbol(h);
    let display_code = if sym.as_str().is_empty() {
        None
    } else {
        Some(sym)
    };
    AssetSnapshot {
        id: asset_id(h),
        name,
        kind: kind_label_exec(h.asset_kind),
        display_code,
        currency: owned(h.local_currency.as_str()),
    }
}

} // verus!
