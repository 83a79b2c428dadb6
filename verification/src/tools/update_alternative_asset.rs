//! Update Alternative Asset: editing a property, vehicle, collectible,
//! precious-metal holding or private-equity stake. A new name or notes
//! become diff rows; metadata keys outside the recognised set are dropped
//! with a warning. The current value is judged by the host, which holds
//! values as floating point, and handed in as an [`AmountEdit`].
use vstd::prelude::*;

use std::sync::Arc;

use crate::accounts::copy_opt;
use crate::holdings::{
    asset_id, asset_id_of, eligible_holdings, eligible_positions, holding_keys, lift, name_of, resolve_at, AssetKind, Holding,
    KindFilter,
};
use crate::text::{decimal, decimal_string, owned, push_str, str_eq, trim, trimmed};
use crate::tools::common::strings_view;
use crate::text::opt_chars;
use crate::tools::delete_alternative_asset::kind_label;
use crate::tools::env::AiEnvironment;
use crate::tools::resolve::{positions, resolution, within, Resolution, Resolved};
use crate::tools::update_account::{diff_views, opt_eq, DiffView, FieldDiff};
use crate::tools::update_goal::{no_step, push_row, push_warning, row, warn, AmountEdit, Step};

verus! {

/// What the assistant asks to change; omitted fields keep their value.
pub struct UpdateAlternativeAssetArgs {
    /// The asset's id or (part of) its name.
    pub asset_ref: String,
    /// A new name; blank clears the label.
    pub name: Option<String>,
    /// New notes; blank clears them.
    pub notes: Option<String>,
    /// Metadata to set, in key order: each key with the printed form of
    /// its new value (`None` clears the key).
    pub metadata: Option<Vec<(String, Option<String>)>>,
}

/// The asset as it will read once the edit is applied.
pub struct AltEditDraft {
    pub id: String,
    pub name: String,
    pub kind: String,
    pub currency: String,
    pub notes: Option<String>,
}

pub struct AltEditCheck {
    pub resolved: bool,
    /// Positions (in the holdings list) of the assets an ambiguous
    /// reference matched.
    pub candidates: Vec<usize>,
    pub warnings: Vec<String>,
    pub is_valid: bool,
    pub has_changes: bool,
}

/// The settled edit.
pub struct AltEdit {
    /// The asset's position in the holdings list.
    pub current: Option<usize>,
    pub draft: AltEditDraft,
    /// Positions (in the requested metadata) of the entries kept.
    pub metadata_patch: Vec<usize>,
    pub diff: Vec<FieldDiff>,
    pub validation: AltEditCheck,
}

/// Proposes an edit of an alternative asset; never writes.
pub struct UpdateAlternativeAssetTool<E: AiEnvironment> {
    env: Arc<E>,
}

impl<E: AiEnvironment> UpdateAlternativeAssetTool<E> {
    pub fn new(env: Arc<E>) -> (r: Self)
        ensures
            r.env() == env,
    {
        UpdateAlternativeAssetTool { env }
    }

    pub closed spec fn env(&self) -> Arc<E> {
        self.env
    }
}

/// The metadata keys an edit may set.
pub open spec fn recognised_key(k: Seq<char>) -> bool {
    k == "address"@ || k == "year"@ || k == "mileage"@ || k == "monthly_rent"@ || k == "tenant_name"@ || k
        == "lease_start"@ || k == "lease_end"@ || k == "purity"@ || k == "serial"@
}

fn recognised_key_exec(k: &str) -> (r: bool)
    ensures
        r == recognised_key(k@),
{
    str_eq(k, "address") || str_eq(k, "year") || str_eq(k, "mileage") || str_eq(k, "monthly_rent") || str_eq(k, "tenant_name")
        || str_eq(k, "lease_start") || str_eq(k, "lease_end") || str_eq(k, "purity") || str_eq(k, "serial")
}

/// The alternative assets resolution runs over: by id, then name, then
/// part of the name (case-insensitive).
pub open spec fn alt_resolution(hs: Seq<Holding>, reference: Seq<char>) -> Resolved {
    let ps = eligible_positions(hs, KindFilter::Alternatives);
    lift(resolution(holding_keys(hs, ps, false), reference), ps)
}

/// The name shown for an asset: its instrument's name, or "Asset".
pub open spec fn shown_name(h: Holding) -> Seq<char> {
    match h.instrument {
        Some(i) => match i.name {
            Some(n) => n@,
            None => "Asset"@,
        },
        None => "Asset"@,
    }
}

/// The asset's notes, when non-empty.
pub open spec fn notes_of(h: Holding) -> Option<Seq<char>> {
    match h.instrument {
        Some(i) => match i.notes {
            Some(n) => if n@.len() > 0 {
                Some(n@)
            } else {
                None
            },
            None => None,
        },
        None => None,
    }
}

pub open spec fn name_step(arg: Option<Seq<char>>, cur: Seq<char>) -> Step {
    match arg {
        Some(n) => if trimmed(n) != cur {
            row("name"@, Some(cur), Some(trimmed(n)))
        } else {
            no_step()
        },
        None => no_step(),
    }
}

pub open spec fn notes_value(arg: Option<Seq<char>>, cur: Option<Seq<char>>) -> Option<Seq<char>> {
    match arg {
        Some(n) => if trimmed(n).len() == 0 {
            None
        } else {
            Some(trimmed(n))
        },
        None => cur,
    }
}

pub open spec fn notes_step(arg: Option<Seq<char>>, cur: Option<Seq<char>>) -> Step {
    match arg {
        Some(_) => if notes_value(arg, cur) != cur {
            row("notes"@, cur, notes_value(arg, cur))
        } else {
            no_step()
        },
        None => no_step(),
    }
}

pub open spec fn value_step(a: AmountEdit) -> Step {
    match a {
        AmountEdit::Unchanged => no_step(),
        AmountEdit::Invalid { shown } => warn(
            "Current value "@ + shown@ + " is invalid — drop it or send a positive number."@,
        ),
        AmountEdit::Changed { old, new } => row("currentValue"@, opt_chars(old), Some(new@)),
    }
}

pub open spec fn unknown_key_warning(k: Seq<char>) -> Seq<char> {
    "Unknown metadata key '"@ + k
        + "' — dropped. Recognised: address, year, mileage, monthly_rent, tenant_name, lease_start, lease_end, purity, serial."@
}

pub type MetaView = Seq<(Seq<char>, Option<Seq<char>>)>;

pub open spec fn meta_view(m: Option<Vec<(String, Option<String>)>>) -> MetaView {
    match m {
        Some(v) => v@.map_values(|e: (String, Option<String>)| (e.0@, opt_chars(e.1))),
        None => Seq::empty(),
    }
}

/// The metadata rows and warnings of the first `k` requested entries.
pub open spec fn meta_step(m: MetaView, k: int) -> Step
    decreases k,
{
    if k <= 0 {
        no_step()
    } else {
        let s = meta_step(m, k - 1);
        let (key, value) = m[k - 1];
        if recognised_key(key) {
            (s.0.push(("metadata."@ + key, None, value)), s.1)
        } else {
            (s.0, s.1.push(unknown_key_warning(key)))
        }
    }
}

/// The entries of the first `k` requested that are kept.
pub open spec fn kept_below(m: MetaView, k: int) -> Seq<int>
    decreases k,
{
    if k <= 0 {
        Seq::empty()
    } else if recognised_key(m[k - 1].0) {
        kept_below(m, k - 1).push(k - 1)
    } else {
        kept_below(m, k - 1)
    }
}

pub open spec fn alt_rows(args: UpdateAlternativeAssetArgs, h: Holding, value: AmountEdit) -> Seq<DiffView> {
    let m = meta_view(args.metadata);
    name_step(opt_chars(args.name), shown_name(h)).0 + notes_step(opt_chars(args.notes), notes_of(h)).0 + value_step(value).0
        + meta_step(m, m.len() as int).0
}

pub open spec fn alt_warnings(args: UpdateAlternativeAssetArgs, h: Holding, value: AmountEdit) -> Seq<Seq<char>> {
    let m = meta_view(args.metadata);
    value_step(value).1 + meta_step(m, m.len() as int).1 + if alt_rows(args, h, value).len() == 0 {
        seq!["Nothing to change — every field matched the current asset."@]
    } else {
        Seq::empty()
    }
}

/// The whole edit for `args` against `holdings`, given the host's
/// judgement of the requested value.
pub open spec fn alt_edit(r: AltEdit, args: UpdateAlternativeAssetArgs, hs: Seq<Holding>, value: AmountEdit) -> bool {
    match alt_resolution(hs, args.asset_ref@) {
        Resolved::Single(i) => {
            let h = hs[i];
            let m = meta_view(args.metadata);
            &&& r.current == Some(i as usize)
            &&& r.draft.id@ == asset_id_of(h)
            &&& r.draft.name@ == match opt_chars(args.name) {
                Some(n) => trimmed(n),
                None => shown_name(h),
            }
            &&& r.draft.kind@ == kind_label(h.asset_kind)
            &&& r.draft.currency@ == h.local_currency@
            &&& opt_chars(r.draft.notes) == notes_value(opt_chars(args.notes), notes_of(h))
            &&& positions(r.metadata_patch@) == kept_below(m, m.len() as int)
            &&& diff_views(r.diff@) == alt_rows(args, h, value)
            &&& strings_view(r.validation.warnings@) == alt_warnings(args, h, value)
            &&& r.validation.resolved
            &&& r.validation.candidates@.len() == 0
            &&& r.validation.has_changes == (r.diff@.len() > 0)
            &&& r.validation.is_valid == r.validation.has_changes
        },
        res => {
            &&& r.current is None
            &&& r.metadata_patch@.len() == 0
            &&& r.diff@.len() == 0
            &&& !r.validation.resolved
            &&& !r.validation.is_valid
            &&& !r.validation.has_changes
            &&& match res {
                Resolved::Ambiguous(found) => {
                    &&& positions(r.validation.candidates@) == found
                    &&& strings_view(r.validation.warnings@) == seq![
                        "\""@ + args.asset_ref@ + "\" matched "@ + decimal(found.len())
                            + " alternative assets. Ask the user which one they mean."@,
                    ]
                },
                Resolved::NotFound => {
                    &&& r.validation.candidates@.len() == 0
                    &&& strings_view(r.validation.warnings@) == seq![
                        "No alternative asset matching \""@ + args.asset_ref@ + "\" found. Use get_holdings to list them."@,
                    ]
                },
                _ => {
                    &&& r.validation.candidates@.len() == 0
                    &&& strings_view(r.validation.warnings@) == seq!["assetRef is required — pass the asset name or id."@]
                },
            }
        },
    }
}

fn shown_name_exec(h: &Holding) -> (r: String)
    ensures
        r@ == shown_name(*h),
{
    match &h.instrument {
        Some(i) => match &i.name {
            Some(n) => owned(n.as_str()),
            None => owned("Asset"),
        },
        None => owned("Asset"),
    }
}

fn notes_exec(h: &Holding) -> (r: Option<String>)
    ensures
        opt_chars(r) == notes_of(*h),
{
    match &h.instrument {
        Some(i) => match &i.notes {
            Some(n) => if n.as_str().is_empty() {
                None
            } else {
                Some(owned(n.as_str()))
            },
            None => None,
        },
        None => None,
    }
}

fn kind_exec(k: Option<AssetKind>) -> (r: String)
    ensures
        r@ == kind_label(k),
{
    match k {
        Some(AssetKind::Property) => owned("PROPERTY"),
        Some(AssetKind::Vehicle) => owned("VEHICLE"),
        Some(AssetKind::Collectible) => owned("COLLECTIBLE"),
        Some(AssetKind::PreciousMetal) => owned("PRECIOUS_METAL"),
        Some(AssetKind::PrivateEquity) => owned("PRIVATE_EQUITY"),
        _ => owned("OTHER"),
    }
}

fn meta_exec(m: &Option<Vec<(String, Option<String>)>>, diff: &mut Vec<FieldDiff>, warnings: &mut Vec<String>) -> (kept: Vec<usize>)
    ensures
        diff_views(final(diff)@) == diff_views(old(diff)@) + meta_step(meta_view(*m), meta_view(*m).len() as int).0,
        strings_view(final(warnings)@) == strings_view(old(warnings)@) + meta_step(meta_view(*m), meta_view(*m).len() as int).1,
        positions(kept@) == kept_below(meta_view(*m), meta_view(*m).len() as int),
{
    let ghost d0 = diff_views(diff@);
    let ghost w0 = strings_view(warnings@);
    let ghost mv = meta_view(*m);
    let mut kept: Vec<usize> = Vec::new();
    match m {
        Some(entries) => {
            let mut k: usize = 0;
            while k < entries.len()
                invariant
                    mv == meta_view(*m),
                    *m == Some(*entries),
                    k <= entries.len(),
                    diff_views(diff@) == d0 + meta_step(mv, k as int).0,
                    strings_view(warnings@) == w0 + meta_step(mv, k as int).1,
                    positions(kept@) == kept_below(mv, k as int),
                decreases entries.len() - k,
            {
                let (key, value) = (&entries[k].0, &entries[k].1);
                assert(mv[k as int] == (key@, opt_chars(*value)));
                if recognised_key_exec(key.as_str()) {
                    let mut field = owned("metadata.");
                    push_str(&mut field, key.as_str());
                    push_row(diff, field.as_str(), None, copy_opt(value));
                    let ghost pk = positions(kept@);
                    kept.push(k);
                    assert(positions(kept@) =~= pk.push(k as int));
                    proof {
                        reveal_strlit("metadata.");
                    }
                } else {
                    let mut w = owned("Unknown metadata key '");
                    push_str(&mut w, key.as_str());
                    push_str(&mut w, "' — dropped. Recognised: address, year, mileage, monthly_rent, tenant_name, lease_start, lease_end, purity, serial.");
                    push_warning(warnings, w);
                }
                k = k + 1;
            }
        },
        None => {
            assert(diff_views(diff@) =~= d0 + Seq::<DiffView>::empty());
            assert(strings_view(warnings@) =~= w0 + Seq::<Seq<char>>::empty());
        },
    }
    kept
}

fn resolved_alt_edit(args: &UpdateAlternativeAssetArgs, h: &Holding, value: &AmountEdit, i: usize) -> (r: AltEdit)
    ensures
        alt_edit_resolved(r, *args, *h, *value, i),
{
    let ghost m = meta_view(args.metadata);
    let mut diff: Vec<FieldDiff> = Vec::new();
    let mut warnings: Vec<String> = Vec::new();
    let current_name = shown_name_exec(h);
    let current_notes = notes_exec(h);
    // name
    let name = match &args.name {
        Some(n) => {
            let t = trim(n.as_str());
            if !str_eq(t.as_str(), current_name.as_str()) {
                push_row(&mut diff, "name", Some(owned(current_name.as_str())), Some(owned(t.as_str())));
            } else {
                assert(diff_views(diff@) =~= Seq::<DiffView>::empty() + Seq::<DiffView>::empty());
            }
            t
        },
        None => owned(current_name.as_str()),
    };
    let ghost d1 = diff_views(diff@);
    assert(d1 =~= name_step(opt_chars(args.name), shown_name(*h)).0);
    // notes
    let notes = match &args.notes {
        Some(n) => {
            let t = trim(n.as_str());
            let new_notes = if t.as_str().is_empty() {
                None
            } else {
                Some(t)
            };
            if !opt_eq(&new_notes, &current_notes) {
                push_row(&mut diff, "notes", copy_opt(&current_notes), copy_opt(&new_notes));
            } else {
                assert(diff_views(diff@) =~= d1 + Seq::<DiffView>::empty());
            }
            new_notes
        },
        None => {
            assert(diff_views(diff@) =~= d1 + Seq::<DiffView>::empty());
            copy_opt(&current_notes)
        },
    };
    let ghost d2 = diff_views(diff@);
    assert(d2 =~= d1 + notes_step(opt_chars(args.notes), notes_of(*h)).0);
    // value
    match value {
        AmountEdit::Unchanged => {},
        AmountEdit::Invalid { shown } => {
            let mut w = owned("Current value ");
            push_str(&mut w, shown.as_str());
            push_str(&mut w, " is invalid — drop it or send a positive number.");
            push_warning(&mut warnings, w);
        },
        AmountEdit::Changed { old, new } => {
            push_row(&mut diff, "currentValue", copy_opt(old), Some(owned(new.as_str())));
        },
    }
    let ghost d3 = diff_views(diff@);
    let ghost w3 = strings_view(warnings@);
    assert(d3 =~= d2 + value_step(*value).0);
    assert(w3 =~= value_step(*value).1);
    // metadata
    let kept = meta_exec(&args.metadata, &mut diff, &mut warnings);
    assert(diff_views(diff@) =~= alt_rows(*args, *h, *value));
    let has_changes = diff.len() > 0;
    let ghost w4 = strings_view(warnings@);
    if !has_changes {
        push_warning(&mut warnings, owned("Nothing to change — every field matched the current asset."));
    }
    assert(strings_view(warnings@) =~= alt_warnings(*args, *h, *value));
    AltEdit {
        current: Some(i),
        draft: AltEditDraft {
            id: asset_id(h),
            name,
            kind: kind_exec(h.asset_kind),
            currency: owned(h.local_currency.as_str()),
            notes,
        },
        metadata_patch: kept,
        diff,
        validation: AltEditCheck { resolved: true, candidates: Vec::new(), warnings, is_valid: has_changes, has_changes },
    }
}

pub open spec fn alt_edit_resolved(r: AltEdit, args: UpdateAlternativeAssetArgs, h: Holding, value: AmountEdit, i: usize) -> bool {
    let m = meta_view(args.metadata);
    &&& r.current == Some(i)
    &&& r.draft.id@ == asset_id_of(h)
    &&& r.draft.name@ == match opt_chars(args.name) {
        Some(n) => trimmed(n),
        None => shown_name(h),
    }
    &&& r.draft.kind@ == kind_label(h.asset_kind)
    &&& r.draft.currency@ == h.local_currency@
    &&& opt_chars(r.draft.notes) == notes_value(opt_chars(args.notes), notes_of(h))
    &&& positions(r.metadata_patch@) == kept_below(m, m.len() as int)
    &&& diff_views(r.diff@) == alt_rows(args, h, value)
    &&& strings_view(r.validation.warnings@) == alt_warnings(args, h, value)
    &&& r.validation.resolved
    &&& r.validation.candidates@.len() == 0
    &&& r.validation.has_changes == (r.diff@.len() > 0)
    &&& r.validation.is_valid == r.validation.has_changes
}

impl<E: AiEnvironment> UpdateAlternativeAssetTool<E> {
    /// The edit `args` describes, against the user's holdings; `value` is
    /// the host's judgement of the requested current value against the
    /// asset the reference resolves to.
    pub fn build_output(&self, args: UpdateAlternativeAssetArgs, holdings: &Vec<Holding>, value: AmountEdit) -> (r: AltEdit)
        ensures
            alt_edit(r, args, holdings@, value),
    {
        let ps = eligible_holdings(holdings, KindFilter::Alternatives);
        let res = resolve_at(holdings, &ps, false, args.asset_ref.as_str());
        let (candidates, warning) = match res {
            Resolution::Single(i) => {
                return resolved_alt_edit(&args, &holdings[i], &value, i);
            },
            Resolution::Ambiguous(found) => {
                let mut w = owned("\"");
                push_str(&mut w, args.asset_ref.as_str());
                push_str(&mut w, "\" matched ");
                push_str(&mut w, decimal_string(found.len()).as_str());
                push_str(&mut w, " alternative assets. Ask the user which one they mean.");
                (found, w)
            },
            Resolution::NotFound => {
                let mut w = owned("No alternative asset matching \"");
                push_str(&mut w, args.asset_ref.as_str());
                push_str(&mut w, "\" found. Use get_holdings to list them.");
                (Vec::new(), w)
            },
            Resolution::Missing => (Vec::new(), owned("assetRef is required — pass the asset name or id.")),
        };
        let ghost wv = warning@;
        let mut warnings: Vec<String> = Vec::new();
        push_warning(&mut warnings, warning);
        assert(strings_view(warnings@) =~= seq![wv]);
        AltEdit {
            current: None,
            draft: AltEditDraft {
                id: String::new(),
                name: String::new(),
                kind: String::new(),
                currency: String::new(),
                notes: None,
            },
            metadata_patch: Vec::new(),
            diff: Vec::new(),
            validation: AltEditCheck { resolved: false, candidates, warnings, is_valid: false, has_changes: false },
        }
    }
}

} // verus!
