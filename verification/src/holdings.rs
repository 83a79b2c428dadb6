//! The holding record the holding tools read, and resolving a reference
//! among the holdings of some kinds.
use vstd::prelude::*;

use crate::text::owned;
use crate::text::opt_chars;
use crate::tools::resolve::{key_views, positions, resolution, resolve, within, KeyView, RefKey, Resolution, Resolved};

verus! {

/// What kind of thing an asset is.
#[derive(Debug, Clone, Copy, PartialEq, Eq, Structural)]
pub enum AssetKind {
    Investment,
    Property,
    Vehicle,
    Collectible,
    PreciousMetal,
    PrivateEquity,
    Liability,
    Fx,
    Other,
}

/// The instrument a holding is in.
pub struct Instrument {
    pub id: String,
    pub symbol: String,
    pub name: Option<String>,
    pub notes: Option<String>,
}

/// A position, as the holdings service lists it (amounts stay with the
/// host).
pub struct Holding {
    pub id: String,
    pub account_id: String,
    pub instrument: Option<Instrument>,
    pub asset_kind: Option<AssetKind>,
    pub local_currency: String,
}

/// The asset a holding is in: its instrument's id, else the holding's.
pub open spec fn asset_id_of(h: Holding) -> Seq<char> {
    match h.instrument {
        Some(i) => i.id@,
        None => h.id@,
    }
}

/// The instrument's name, empty when there is none.
pub open spec fn name_of(h: Holding) -> Seq<char> {
    match h.instrument {
        Some(i) => match i.name {
            Some(n) => n@,
            None => Seq::empty(),
        },
        None => Seq::empty(),
    }
}

/// The instrument's symbol, empty when there is no instrument.
pub open spec fn symbol_of(h: Holding) -> Seq<char> {
    match h.instrument {
        Some(i) => i.symbol@,
        None => Seq::empty(),
    }
}

/// Which holdings a tool resolves among.
#[derive(Clone, Copy)]
pub enum KindFilter {
    /// Liability-kind assets.
    Liabilities,
    /// Property, vehicles, collectibles, precious metals, private equity.
    Alternatives,
    /// Investments, and assets of no recorded kind.
    Tradable,
}

pub open spec fn is_alternative(k: AssetKind) -> bool {
    k == AssetKind::Property || k == AssetKind::Vehicle || k == AssetKind::Collectible || k == AssetKind::PreciousMetal
        || k == AssetKind::PrivateEquity
}

pub open spec fn eligible(filter: KindFilter, kind: Option<AssetKind>) -> bool {
    match filter {
        KindFilter::Liabilities => kind == Some(AssetKind::Liability),
        KindFilter::Alternatives => match kind {
            Some(k) => is_alternative(k),
            None => false,
        },
        KindFilter::Tradable => kind == Some(AssetKind::Investment) || kind is None,
    }
}

pub fn is_eligible(filter: KindFilter, kind: Option<AssetKind>) -> (r: bool)
    ensures
        r == eligible(filter, kind),
{
    match filter {
        KindFilter::Liabilities => match kind {
            Some(AssetKind::Liability) => true,
            _ => false,
        },
        KindFilter::Alternatives => match kind {
            Some(AssetKind::Property) | Some(AssetKind::Vehicle) | Some(AssetKind::Collectible) | Some(
                AssetKind::PreciousMetal,
            ) | Some(AssetKind::PrivateEquity) => true,
            _ => false,
        },
        KindFilter::Tradable => match kind {
            Some(AssetKind::Investment) | None => true,
            _ => false,
        },
    }
}

/// The positions below `k` of the holdings the filter admits, in order.
pub open spec fn eligible_below(holdings: Seq<Holding>, filter: KindFilter, k: int) -> Seq<int>
    decreases k,
{
    if k <= 0 {
        Seq::empty()
    } else {
        let e = eligible_below(holdings, filter, k - 1);
        if eligible(filter, holdings[k - 1].asset_kind) {
            e.push(k - 1)
        } else {
            e
        }
    }
}

pub open spec fn eligible_positions(holdings: Seq<Holding>, filter: KindFilter) -> Seq<int> {
    eligible_below(holdings, filter, holdings.len() as int)
}

/// What resolution reads of a holding: asset id, name, and the symbol
/// (or the name again, for tools that match names only).
pub open spec fn holding_key(h: Holding, by_symbol: bool) -> KeyView {
    (asset_id_of(h), name_of(h), if by_symbol {
        symbol_of(h)
    } else {
        name_of(h)
    })
}

pub open spec fn holding_keys(holdings: Seq<Holding>, ps: Seq<int>, by_symbol: bool) -> Seq<KeyView> {
    ps.map_values(|p: int| holding_key(holdings[p], by_symbol))
}

/// A resolution over the eligible holdings, read back as positions in the
/// whole list.
pub open spec fn lift(r: Resolved, ps: Seq<int>) -> Resolved {
    match r {
        Resolved::Single(i) => Resolved::Single(ps[i]),
        Resolved::Ambiguous(v) => Resolved::Ambiguous(v.map_values(|i: int| ps[i])),
        other => other,
    }
}

/// How `reference` resolves among the holdings the filter admits (by id,
/// then name or symbol, then part of either; case-insensitive), as
/// positions in `holdings`.
pub open spec fn holding_resolution(holdings: Seq<Holding>, filter: KindFilter, reference: Seq<char>) -> Resolved {
    let ps = eligible_positions(holdings, filter);
    lift(resolution(holding_keys(holdings, ps, true), reference), ps)
}

pub fn asset_id(h: &Holding) -> (r: String)
    ensures
        r@ == asset_id_of(*h),
{
    match &h.instrument {
        Some(i) => owned(i.id.as_str()),
        None => owned(h.id.as_str()),
    }
}

pub fn name(h: &Holding) -> (r: String)
    ensures
        r@ == name_of(*h),
{
    match &h.instrument {
        Some(i) => match &i.name {
            Some(n) => owned(n.as_str()),
            None => String::new(),
        },
        None => String::new(),
    }
}

pub fn symbol(h: &Holding) -> (r: String)
    ensures
        r@ == symbol_of(*h),
{
    match &h.instrument {
        Some(i) => owned(i.symbol.as_str()),
        None => String::new(),
    }
}

/// The positions of the holdings `filter` admits, in order.
pub fn eligible_holdings(holdings: &Vec<Holding>, filter: KindFilter) -> (ps: Vec<usize>)
    ensures
        positions(ps@) == eligible_positions(holdings@, filter),
        forall|t: int| 0 <= t < ps@.len() ==> #[trigger] ps@[t] < holdings@.len(),
{
    let mut ps: Vec<usize> = Vec::new();
    let mut k: usize = 0;
    while k < holdings.len()
        invariant
            k <= holdings.len(),
            positions(ps@) == eligible_below(holdings@, filter, k as int),
            forall|t: int| 0 <= t < ps@.len() ==> #[trigger] ps@[t] < k,
        decreases holdings.len() - k,
    {
        if is_eligible(filter, holdings[k].asset_kind) {
            let ghost pp = positions(ps@);
            ps.push(k);
            assert(positions(ps@) =~= pp.push(k as int));
        }
        k = k + 1;
    }
    ps
}

/// Resolves `reference` among the holdings at positions `ps` (by asset id,
/// then name or symbol, then part of either; case-insensitive); the
/// positions returned are positions in `holdings`.
pub fn resolve_at(holdings: &Vec<Holding>, ps: &Vec<usize>, by_symbol: bool, reference: &str) -> (r: Resolution)
    requires
        forall|t: int| 0 <= t < ps@.len() ==> #[trigger] ps@[t] < holdings@.len(),
    ensures
        r@ == lift(resolution(holding_keys(holdings@, positions(ps@), by_symbol), reference@), positions(ps@)),
        within(r@, holdings@.len() as int),
{
    let mut keys: Vec<RefKey> = Vec::new();
    let mut k: usize = 0;
    while k < ps.len()
        invariant
            forall|t: int| 0 <= t < ps@.len() ==> #[trigger] ps@[t] < holdings@.len(),
            k <= ps.len(),
            keys@.len() == k,
            key_views(keys@) == holding_keys(holdings@, positions(ps@).take(k as int), by_symbol),
        decreases ps.len() - k,
    {
        let h = &holdings[ps[k]];
        let ghost pk = keys@;
        let alt = if by_symbol {
            symbol(h)
        } else {
            name(h)
        };
        keys.push(RefKey { id: asset_id(h), name: name(h), alt });
        proof {
            assert(keys@ == pk.push(keys@[pk.len() as int]));
            assert(positions(ps@).take(k + 1) =~= positions(ps@).take(k as int).push(ps@[k as int] as int));
            assert(key_views(keys@) =~= key_views(pk).push(holding_key(holdings@[ps@[k as int] as int], by_symbol)));
            assert(holding_keys(holdings@, positions(ps@).take(k + 1), by_symbol) =~= holding_keys(holdings@, positions(ps@).take(k as int), by_symbol).push(
                holding_key(holdings@[ps@[k as int] as int], by_symbol),
            ));
        }
        k = k + 1;
    }
    assert(positions(ps@).take(ps.len() as int) =~= positions(ps@));
    let ghost pv = positions(ps@);
    let inner = resolve(&keys, reference);
    match inner {
        Resolution::Single(i) => {
            proof {
                assert(pv[i as int] == ps@[i as int] as int);
            }
            Resolution::Single(ps[i])
        },
        Resolution::Ambiguous(found) => {
            let ghost fv = positions(found@);
            let mut out: Vec<usize> = Vec::new();
            let mut t: usize = 0;
            while t < found.len()
                invariant
                    fv == positions(found@),
                    forall|q: int| 0 <= q < fv.len() ==> 0 <= #[trigger] fv[q] < ps@.len(),
                    forall|q: int| 0 <= q < ps@.len() ==> #[trigger] ps@[q] < holdings@.len(),
                    t <= found.len(),
                    out@.len() == t,
                    forall|q: int| 0 <= q < t ==> #[trigger] out@[q] == ps@[found@[q] as int],
                decreases found.len() - t,
            {
                assert(fv[t as int] == found@[t as int] as int);
                out.push(ps[found[t]]);
                t = t + 1;
            }
            proof {
                assert(positions(out@) =~= fv.map_values(|i: int| pv[i]));
            }
            Resolution::Ambiguous(out)
        },
        Resolution::NotFound => Resolution::NotFound,
        Resolution::Missing => Resolution::Missing,
    }
}

/// Resolves `reference` among the holdings `filter` admits; the positions
/// returned are positions in `holdings`.
pub fn resolve_holding(holdings: &Vec<Holding>, filter: KindFilter, reference: &str) -> (r: Resolution)
    ensures
        r@ == holding_resolution(holdings@, filter, reference@),
        within(r@, holdings@.len() as int),
{
    let ps = eligible_holdings(holdings, filter);
    resolve_at(holdings, &ps, true, reference)
}

} // verus!
