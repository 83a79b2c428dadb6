//! Delete Stock Position: the confirm card for removing a tradable
//! position by cascade-deleting the activities that built it. The tool
//! settles the asset, the account scope, the positions affected and the
//! activity rows to delete (newest first); quantities and market values
//! are floating-point figures the host attaches to the positions settled
//! here. The tool itself never writes.
use vstd::prelude::*;

use std::sync::Arc;

use crate::accounts::{copy_opt, Account};
use crate::decimal::{dec_lt, Dec};
use crate::holdings::{
    asset_id, asset_id_of, eligible_holdings, eligible_positions, holding_keys, lift, name, name_of, resolve_at, symbol,
    symbol_of, AssetKind, Holding, KindFilter,
};
use crate::sorting::{isort, lemma_ins_at, str_less, str_lt};
use crate::text::{decimal, decimal_string, is_infix, owned, push_str, str_contains, str_eq, to_lowercase, trim, trimmed, unicode_lowercase};
use crate::tools::common::strings_view;
use crate::text::opt_chars;
use crate::tools::env::AiEnvironment;
use crate::tools::resolve::{positions, resolution, within, Resolution, Resolved};

verus! {

/// What the assistant passes.
pub struct DeleteStockPositionArgs {
    /// Ticker, name, or asset id.
    pub asset_ref: String,
    /// Restrict to one account (id or name); every account when omitted.
    pub account_ref: Option<String>,
    /// The user's stated reason, shown on the confirm card.
    pub reason: Option<String>,
}

/// The asset whose position would go.
pub struct AssetSnapshot {
    pub id: String,
    pub symbol: String,
    pub name: String,
    /// INVESTMENT or OTHER.
    pub kind: String,
}

/// One account's position in the asset.
pub struct PositionImpact {
    /// The holding's position in the holdings list.
    pub holding: usize,
    pub account_id: String,
    pub account_name: String,
    pub local_currency: String,
    /// Activities in this account that would be deleted.
    pub activity_count: usize,
}

/// An activity the search for the asset returned.
pub struct ActivityRow {
    pub id: String,
    pub account_id: String,
    /// Sortable date text (YYYY-MM-DD...).
    pub date: String,
}

pub struct ValidationResult {
    pub resolved: bool,
    pub candidates: Vec<AssetSnapshot>,
    pub warnings: Vec<String>,
    pub is_valid: bool,
}

/// The settled card.
pub struct StockPositionDeletion {
    pub target: Option<AssetSnapshot>,
    pub positions: Vec<PositionImpact>,
    /// The activity rows to delete, newest first.
    pub activity_ids: Vec<String>,
    pub reason: Option<String>,
    pub validation: ValidationResult,
}

/// Proposes removing a position; never writes.
pub struct DeleteStockPositionTool<E: AiEnvironment> {
    env: Arc<E>,
}

impl<E: AiEnvironment> DeleteStockPositionTool<E> {
    pub fn new(env: Arc<E>) -> (r: Self)
        ensures
            r.env() == env,
    {
        DeleteStockPositionTool { env }
    }

    pub closed spec fn env(&self) -> Arc<E> {
        self.env
    }
}

// ─── the asset ───────────────────────────────────────────────────────────

/// Among positions `ps`, the first holding of each asset, in order.
pub open spec fn first_per_asset(hs: Seq<Holding>, ps: Seq<int>, k: int) -> Seq<int>
    decreases k,
{
    if k <= 0 {
        Seq::empty()
    } else {
        let d = first_per_asset(hs, ps, k - 1);
        let p = ps[k - 1];
        if exists|q: int| 0 <= q < d.len() && asset_id_of(hs[d[q]]) == asset_id_of(hs[p]) {
            d
        } else {
            d.push(p)
        }
    }
}

pub open spec fn by_asset_id(hs: Seq<Holding>) -> spec_fn(int, int) -> bool {
    |a: int, b: int| str_lt(asset_id_of(hs[a]), asset_id_of(hs[b]))
}

/// The tradable assets a reference is resolved among: one holding per
/// asset (the first listed), ordered by asset id.
pub open spec fn stock_candidates(hs: Seq<Holding>) -> Seq<int> {
    let t = eligible_positions(hs, KindFilter::Tradable);
    isort(first_per_asset(hs, t, t.len() as int), by_asset_id(hs))
}

pub open spec fn stock_resolution(hs: Seq<Holding>, reference: Seq<char>) -> Resolved {
    let c = stock_candidates(hs);
    lift(resolution(holding_keys(hs, c, true), reference), c)
}

fn candidates_exec(hs: &Vec<Holding>) -> (c: Vec<usize>)
    ensures
        positions(c@) == stock_candidates(hs@),
        forall|t: int| 0 <= t < c@.len() ==> #[trigger] c@[t] < hs@.len(),
{
    let t = eligible_holdings(hs, KindFilter::Tradable);
    let ghost tv = positions(t@);
    let mut firsts: Vec<usize> = Vec::new();
    let mut k: usize = 0;
    while k < t.len()
        invariant
            tv == positions(t@),
            tv == eligible_positions(hs@, KindFilter::Tradable),
            forall|q: int| 0 <= q < t@.len() ==> #[trigger] t@[q] < hs@.len(),
            k <= t.len(),
            positions(firsts@) == first_per_asset(hs@, tv, k as int),
            forall|q: int| 0 <= q < firsts@.len() ==> #[trigger] firsts@[q] < hs@.len(),
        decreases t.len() - k,
    {
        let p = t[k];
        let id = asset_id(&hs[p]);
        let mut seen = false;
        let mut q: usize = 0;
        while q < firsts.len()
            invariant
                forall|z: int| 0 <= z < firsts@.len() ==> #[trigger] firsts@[z] < hs@.len(),
                q <= firsts.len(),
                id@ == asset_id_of(hs@[p as int]),
                seen == exists|z: int| 0 <= z < q && asset_id_of(hs@[firsts@[z] as int]) == id@,
            decreases firsts.len() - q,
        {
            let other = asset_id(&hs[firsts[q]]);
            if str_eq(other.as_str(), id.as_str()) {
                seen = true;
            }
            q = q + 1;
        }
        let ghost d = positions(firsts@);
        proof {
            assert(tv[k as int] == p as int);
            if seen {
                let z = choose|z: int| 0 <= z < q && asset_id_of(hs@[firsts@[z] as int]) == id@;
                assert(d[z] == firsts@[z] as int);
            } else {
                assert forall|z: int| 0 <= z < d.len() implies asset_id_of(hs@[d[z]]) != asset_id_of(hs@[p as int]) by {
                    assert(d[z] == firsts@[z] as int);
                }
            }
        }
        if !seen {
            firsts.push(p);
            assert(positions(firsts@) =~= d.push(p as int));
        }
        k = k + 1;
    }
    assert(tv.len() == t@.len());
    // order by asset id
    let ghost fv = positions(firsts@);
    let ghost lt = by_asset_id(hs@);
    let mut out: Vec<usize> = Vec::new();
    let mut i: usize = 0;
    while i < firsts.len()
        invariant
            fv == positions(firsts@),
            lt == by_asset_id(hs@),
            forall|q: int| 0 <= q < firsts@.len() ==> #[trigger] firsts@[q] < hs@.len(),
            i <= firsts.len(),
            positions(out@) == isort(fv.take(i as int), lt),
            forall|q: int| 0 <= q < out@.len() ==> #[trigger] out@[q] < hs@.len(),
        decreases firsts.len() - i,
    {
        let x = firsts[i];
        let xid = asset_id(&hs[x]);
        let mut k: usize = out.len();
        while k > 0 && str_less(xid.as_str(), asset_id(&hs[out[k - 1]]).as_str())
            invariant
                k <= out.len(),
                forall|q: int| 0 <= q < out@.len() ==> #[trigger] out@[q] < hs@.len(),
                xid@ == asset_id_of(hs@[x as int]),
                forall|q: int| k <= q < out@.len() ==> lt(x as int, #[trigger] positions(out@)[q]),
                lt == by_asset_id(hs@),
            decreases k,
        {
            assert(positions(out@)[k - 1] == out@[k - 1] as int);
            k = k - 1;
        }
        let ghost before = positions(out@);
        proof {
            if k > 0 {
                assert(before[k - 1] == out@[k - 1] as int);
            }
            lemma_ins_at(before, x as int, lt, k as int);
            assert(fv.take(i + 1).drop_last() =~= fv.take(i as int));
            assert(fv[i as int] == x as int);
        }
        out.insert(k, x);
        assert(positions(out@) =~= before.take(k as int).push(x as int) + before.skip(k as int));
        i = i + 1;
    }
    assert(fv.take(firsts.len() as int) =~= fv);
    out
}

/// Resolves the asset reference among the tradable assets.
pub fn resolve_stock(hs: &Vec<Holding>, reference: &str) -> (r: Resolution)
    ensures
        r@ == stock_resolution(hs@, reference@),
        within(r@, hs@.len() as int),
{
    let c = candidates_exec(hs);
    resolve_at(hs, &c, true, reference)
}

/// The label shown for a tradable asset's kind.
pub open spec fn stock_kind(k: Option<AssetKind>) -> Seq<char> {
    match k {
        Some(AssetKind::Investment) => "INVESTMENT"@,
        Some(_) => "OTHER"@,
        None => "INVESTMENT"@,
    }
}

/// `s` is the snapshot of holding `h`.
pub open spec fn snapshot_of(s: AssetSnapshot, h: Holding) -> bool {
    &&& s.id@ == asset_id_of(h)
    &&& s.symbol@ == symbol_of(h)
    &&& s.name@ == name_of(h)
    &&& s.kind@ == stock_kind(h.asset_kind)
}

fn snapshot(h: &Holding) -> (s: AssetSnapshot)
    ensures
        snapshot_of(s, *h),
{
    let kind = match h.asset_kind {
        Some(AssetKind::Investment) => owned("INVESTMENT"),
        Some(_) => owned("OTHER"),
        None => owned("INVESTMENT"),
    };
    AssetSnapshot { id: asset_id(h), symbol: symbol(h), name: name(h), kind }
}

// ─── the account scope ───────────────────────────────────────────────────

/// Which pass an account matches the trimmed reference `r` (lower-cased
/// `lower`) in: 0 by id, 1 by name, 2 by part of the name.
pub open spec fn account_pass(a: Account, r: Seq<char>, lower: Seq<char>, pass: int) -> bool {
    if pass == 0 {
        a.id@ == r
    } else if pass == 1 {
        unicode_lowercase(a.name@) == lower
    } else {
        is_infix(lower, unicode_lowercase(a.name@))
    }
}

pub open spec fn first_account(accts: Seq<Account>, r: Seq<char>, lower: Seq<char>, pass: int) -> Option<int> {
    if exists|k: int| 0 <= k < accts.len() && account_pass(accts[k], r, lower, pass) {
        Some(
            choose|k: int|
                0 <= k < accts.len() && account_pass(accts[k], r, lower, pass) && forall|j: int|
                    0 <= j < k ==> !account_pass(accts[j], r, lower, pass),
        )
    } else {
        None
    }
}

/// The account a scope reference names: the first by id, else the first
/// by name, else the first whose name contains it (case-insensitively);
/// none for a blank reference.
pub open spec fn scope_of(accts: Seq<Account>, reference: Seq<char>) -> Option<int> {
    let r = trimmed(reference);
    let lower = unicode_lowercase(r);
    if r.len() == 0 {
        None
    } else if first_account(accts, r, lower, 0) is Some {
        first_account(accts, r, lower, 0)
    } else if first_account(accts, r, lower, 1) is Some {
        first_account(accts, r, lower, 1)
    } else {
        first_account(accts, r, lower, 2)
    }
}

fn account_pass_exec(a: &Account, r: &str, lower: &str, pass: u8) -> (b: bool)
    ensures
        b == account_pass(*a, r@, lower@, pass as int),
{
    if pass == 0 {
        str_eq(a.id.as_str(), r)
    } else if pass == 1 {
        let l = to_lowercase(a.name.as_str());
        str_eq(l.as_str(), lower)
    } else {
        let l = to_lowercase(a.name.as_str());
        str_contains(l.as_str(), lower)
    }
}

fn first_account_exec(accts: &Vec<Account>, r: &str, lower: &str, pass: u8) -> (f: Option<usize>)
    ensures
        match f {
            Some(k) => first_account(accts@, r@, lower@, pass as int) == Some(k as int) && k < accts@.len(),
            None => first_account(accts@, r@, lower@, pass as int) is None,
        },
{
    let mut k: usize = 0;
    while k < accts.len()
        invariant
            k <= accts.len(),
            forall|j: int| 0 <= j < k ==> !account_pass(#[trigger] accts@[j], r@, lower@, pass as int),
        decreases accts.len() - k,
    {
        if account_pass_exec(&accts[k], r, lower, pass) {
            proof {
                let c = choose|c: int|
                    0 <= c < accts@.len() && account_pass(accts@[c], r@, lower@, pass as int) && forall|j: int|
                        0 <= j < c ==> !account_pass(accts@[j], r@, lower@, pass as int);
                if c < k {
                    assert(!account_pass(accts@[c], r@, lower@, pass as int));
                } else if c > k {
                    assert(!account_pass(accts@[k as int], r@, lower@, pass as int));
                }
            }
            return Some(k);
        }
        k = k + 1;
    }
    None
}

/// The account a scope reference names, by position.
pub fn scope_account(accts: &Vec<Account>, reference: &str) -> (f: Option<usize>)
    ensures
        match f {
            Some(k) => scope_of(accts@, reference@) == Some(k as int) && k < accts@.len(),
            None => scope_of(accts@, reference@) is None,
        },
{
    let t = trim(reference);
    if t.as_str().is_empty() {
        return None;
    }
    let lower = to_lowercase(t.as_str());
    let p0 = first_account_exec(accts, t.as_str(), lower.as_str(), 0);
    if p0.is_some() {
        return p0;
    }
    let p1 = first_account_exec(accts, t.as_str(), lower.as_str(), 1);
    if p1.is_some() {
        return p1;
    }
    first_account_exec(accts, t.as_str(), lower.as_str(), 2)
}

/// The name shown for an account id: the first account with that id, or
/// the id itself.
pub open spec fn account_name_for(accts: Seq<Account>, id: Seq<char>) -> Seq<char> {
    if exists|k: int| 0 <= k < accts.len() && accts[k].id@ == id {
        accts[choose|k: int| 0 <= k < accts.len() && accts[k].id@ == id && forall|j: int| 0 <= j < k ==> accts[j].id@ != id].name@
    } else {
        id
    }
}

fn account_name_exec(accts: &Vec<Account>, id: &str) -> (r: String)
    ensures
        r@ == account_name_for(accts@, id@),
{
    let mut k: usize = 0;
    while k < accts.len()
        invariant
            k <= accts.len(),
            forall|j: int| 0 <= j < k ==> (#[trigger] accts@[j]).id@ != id@,
        decreases accts.len() - k,
    {
        if str_eq(accts[k].id.as_str(), id) {
            proof {
                let c = choose|c: int| 0 <= c < accts@.len() && accts@[c].id@ == id@ && forall|j: int| 0 <= j < c ==> accts@[j].id@ != id@;
                if c < k {
                    assert(accts@[c].id@ != id@);
                } else if c > k {
                    assert(accts@[k as int].id@ != id@);
                }
            }
            return owned(accts[k].name.as_str());
        }
        k = k + 1;
    }
    owned(id)
}

// ─── positions and activities ────────────────────────────────────────────

/// The holdings of asset `asset` (in account `scope`, when given), the
/// portfolio-total row excepted, in order, below `k`.
pub open spec fn affected_below(hs: Seq<Holding>, asset: Seq<char>, scope: Option<Seq<char>>, k: int) -> Seq<int>
    decreases k,
{
    if k <= 0 {
        Seq::empty()
    } else {
        let a = affected_below(hs, asset, scope, k - 1);
        let h = hs[k - 1];
        if asset_id_of(h) == asset && (scope is None || scope == Some(h.account_id@)) && h.account_id@ != "TOTAL"@ {
            a.push(k - 1)
        } else {
            a
        }
    }
}

pub open spec fn affected(hs: Seq<Holding>, asset: Seq<char>, scope: Option<Seq<char>>) -> Seq<int> {
    affected_below(hs, asset, scope, hs.len() as int)
}

fn affected_exec(hs: &Vec<Holding>, asset: &str, scope: &Option<String>) -> (ps: Vec<usize>)
    ensures
        positions(ps@) == affected(hs@, asset@, opt_chars(*scope)),
        forall|t: int| 0 <= t < ps@.len() ==> #[trigger] ps@[t] < hs@.len(),
{
    let mut ps: Vec<usize> = Vec::new();
    let mut k: usize = 0;
    while k < hs.len()
        invariant
            k <= hs.len(),
            positions(ps@) == affected_below(hs@, asset@, opt_chars(*scope), k as int),
            forall|t: int| 0 <= t < ps@.len() ==> #[trigger] ps@[t] < k,
        decreases hs.len() - k,
    {
        let h = &hs[k];
        let id = asset_id(h);
        let in_scope = match scope {
            Some(sc) => str_eq(h.account_id.as_str(), sc.as_str()),
            None => true,
        };
        if str_eq(id.as_str(), asset) && in_scope && !str_eq(h.account_id.as_str(), "TOTAL") {
            let ghost pp = positions(ps@);
            ps.push(k);
            assert(positions(ps@) =~= pp.push(k as int));
        }
        k = k + 1;
    }
    ps
}

/// An activity as the ordering sees it: (id, date).
pub type Stamp = (Seq<char>, Seq<char>);

/// The activities of account `account` below `k`, as (id, date), in
/// order.
pub open spec fn stamps_in(acts: Seq<ActivityRow>, account: Seq<char>, k: int) -> Seq<Stamp>
    decreases k,
{
    if k <= 0 {
        Seq::empty()
    } else {
        let s = stamps_in(acts, account, k - 1);
        if acts[k - 1].account_id@ == account {
            s.push((acts[k - 1].id@, acts[k - 1].date@))
        } else {
            s
        }
    }
}

pub open spec fn account_stamps(acts: Seq<ActivityRow>, account: Seq<char>) -> Seq<Stamp> {
    stamps_in(acts, account, acts.len() as int)
}

/// The activities of each affected holding's account, position by
/// position.
pub open spec fn all_stamps(hs: Seq<Holding>, acts: Seq<ActivityRow>, ps: Seq<int>, k: int) -> Seq<Stamp>
    decreases k,
{
    if k <= 0 {
        Seq::empty()
    } else {
        all_stamps(hs, acts, ps, k - 1) + account_stamps(acts, hs[ps[k - 1]].account_id@)
    }
}

/// Newer activities first; a stable order keeps ties as listed.
pub open spec fn newest_first() -> spec_fn(Stamp, Stamp) -> bool {
    |x: Stamp, y: Stamp| str_lt(y.1, x.1)
}

/// The ids of the activities to delete, newest first.
pub open spec fn ordered_ids(hs: Seq<Holding>, acts: Seq<ActivityRow>, ps: Seq<int>) -> Seq<Seq<char>> {
    isort(all_stamps(hs, acts, ps, ps.len() as int), newest_first()).map_values(|x: Stamp| x.0)
}

fn stamps_exec(acts: &Vec<ActivityRow>, account: &str) -> (r: Vec<(String, String)>)
    ensures
        r@.map_values(|x: (String, String)| (x.0@, x.1@)) == account_stamps(acts@, account@),
{
    let mut out: Vec<(String, String)> = Vec::new();
    let mut k: usize = 0;
    while k < acts.len()
        invariant
            k <= acts.len(),
            out@.map_values(|x: (String, String)| (x.0@, x.1@)) == stamps_in(acts@, account@, k as int),
        decreases acts.len() - k,
    {
        let a = &acts[k];
        if str_eq(a.account_id.as_str(), account) {
            let ghost before = out@.map_values(|x: (String, String)| (x.0@, x.1@));
            out.push((owned(a.id.as_str()), owned(a.date.as_str())));
            assert(out@.map_values(|x: (String, String)| (x.0@, x.1@)) =~= before.push((a.id@, a.date@)));
        }
        k = k + 1;
    }
    out
}

spec fn stamp_views(v: Seq<(String, String)>) -> Seq<Stamp> {
    v.map_values(|x: (String, String)| (x.0@, x.1@))
}

/// Inserts `x` into the newest-first order.
fn insert_newest_first(out: &mut Vec<(String, String)>, x: (String, String))
    ensures
        stamp_views(final(out)@) == crate::sorting::ins(stamp_views(old(out)@), (x.0@, x.1@), newest_first()),
{
    let ghost xv: Stamp = (x.0@, x.1@);
    let mut k: usize = out.len();
    while k > 0 && str_less(out[k - 1].1.as_str(), x.1.as_str())
        invariant
            k <= out.len(),
            xv == (x.0@, x.1@),
            forall|q: int| k <= q < out@.len() ==> (newest_first())(xv, #[trigger] stamp_views(out@)[q]),
        decreases k,
    {
        k = k - 1;
    }
    let ghost before = stamp_views(out@);
    proof {
        lemma_ins_at(before, xv, newest_first(), k as int);
    }
    out.insert(k, x);
    assert(stamp_views(out@) =~= before.take(k as int).push(xv) + before.skip(k as int));
}

// ─── the card ────────────────────────────────────────────────────────────

pub open spec fn plural(n: nat, word: Seq<char>) -> Seq<char> {
    if n == 1 {
        word
    } else {
        word + "s"@
    }
}

pub open spec fn cascade_warning(rows: nat, accounts: nat) -> Seq<char> {
    "This cascade-deletes "@ + decimal(rows) + " "@ + plural(rows, "activity row"@) + " across "@ + decimal(accounts) + " "@
        + plural(accounts, "account"@)
        + ". The position history is gone forever; if you only want to mark the position closed, use sell records instead."@
}

pub open spec fn snapshot_import_warning() -> Seq<char> {
    "The holding shows an open quantity but no activities matched in the search. The position may have been imported as a snapshot — manual cleanup needed; this tool can't unwind it."@
}

pub open spec fn no_positions_warning(symbol: Seq<char>, scope_name: Option<Seq<char>>) -> Seq<char> {
    symbol + " resolves to a real asset but has no open positions"@ + match scope_name {
        Some(n) => " in "@ + n,
        None => Seq::empty(),
    } + "."@
}

/// `p` describes the position of holding `k`.
pub open spec fn impact_of(p: PositionImpact, hs: Seq<Holding>, accts: Seq<Account>, acts: Seq<ActivityRow>, k: int) -> bool {
    &&& p.holding == k
    &&& p.account_id@ == hs[k].account_id@
    &&& p.account_name@ == account_name_for(accts, hs[k].account_id@)
    &&& p.local_currency@ == hs[k].local_currency@
    &&& p.activity_count == account_stamps(acts, hs[k].account_id@).len()
}

/// The card once the asset (holding `i`) and the scope are settled.
pub open spec fn positions_card(
    r: StockPositionDeletion,
    hs: Seq<Holding>,
    open: Seq<bool>,
    accts: Seq<Account>,
    acts: Seq<ActivityRow>,
    i: int,
    scope: Option<Seq<char>>,
) -> bool {
    let ps = affected(hs, asset_id_of(hs[i]), scope);
    &&& r.validation.resolved
    &&& r.validation.candidates@.len() == 0
    &&& if ps.len() == 0 {
        &&& r.positions@.len() == 0
        &&& r.activity_ids@.len() == 0
        &&& !r.validation.is_valid
        &&& strings_view(r.validation.warnings@) == seq![
            no_positions_warning(
                symbol_of(hs[i]),
                match scope {
                    Some(id) => Some(account_name_for(accts, id)),
                    None => None,
                },
            ),
        ]
    } else {
        let ids = ordered_ids(hs, acts, ps);
        &&& r.positions@.len() == ps.len()
        &&& forall|k: int| 0 <= k < ps.len() ==> impact_of(#[trigger] r.positions@[k], hs, accts, acts, ps[k])
        &&& strings_view(r.activity_ids@) == ids
        &&& r.validation.is_valid
        &&& strings_view(r.validation.warnings@) == seq![cascade_warning(ids.len(), ps.len())] + if (exists|t: int|
            0 <= t < ps.len() && open[ps[t]]) && ids.len() == 0 {
            seq![snapshot_import_warning()]
        } else {
            Seq::empty()
        }
    }
}

/// The card for removing the position `args` names; `open` says, per
/// holding, whether its quantity is positive; `acts` are the activities
/// the search returns for the resolved asset.
pub open spec fn stock_deletion(
    r: StockPositionDeletion,
    args: DeleteStockPositionArgs,
    hs: Seq<Holding>,
    open: Seq<bool>,
    accts: Seq<Account>,
    acts: Seq<ActivityRow>,
) -> bool {
    &&& opt_chars(r.reason) == opt_chars(args.reason)
    &&& match stock_resolution(hs, args.asset_ref@) {
        Resolved::Single(i) => {
            &&& r.target matches Some(t) && snapshot_of(t, hs[i])
            &&& match args.account_ref {
                Some(ar) => match scope_of(accts, ar@) {
                    Some(j) => positions_card(r, hs, open, accts, acts, i, Some(accts[j].id@)),
                    None => {
                        &&& r.positions@.len() == 0
                        &&& r.activity_ids@.len() == 0
                        &&& !r.validation.resolved
                        &&& !r.validation.is_valid
                        &&& r.validation.candidates@.len() == 0
                        &&& strings_view(r.validation.warnings@) == seq![
                            "No account matching \""@ + ar@
                                + "\" found. Drop the account scope or call get_accounts."@,
                        ]
                    },
                },
                None => positions_card(r, hs, open, accts, acts, i, None),
            }
        },
        res => {
            &&& r.target is None
            &&& r.positions@.len() == 0
            &&& r.activity_ids@.len() == 0
            &&& !r.validation.resolved
            &&& !r.validation.is_valid
            &&& match res {
                Resolved::Ambiguous(found) => {
                    &&& r.validation.candidates@.len() == found.len()
                    &&& forall|k: int| 0 <= k < found.len() ==> snapshot_of(#[trigger] r.validation.candidates@[k], hs[found[k]])
                    &&& strings_view(r.validation.warnings@) == seq![
                        "\""@ + args.asset_ref@ + "\" matched "@ + decimal(found.len())
                            + " tradable assets. Ask the user which one they mean."@,
                    ]
                },
                Resolved::NotFound => {
                    &&& r.validation.candidates@.len() == 0
                    &&& strings_view(r.validation.warnings@) == seq![
                        "No tradable asset matching \""@ + args.asset_ref@ + "\" found. Call get_holdings first."@,
                    ]
                },
                _ => {
                    &&& r.validation.candidates@.len() == 0
                    &&& strings_view(r.validation.warnings@) == seq!["assetRef is required — pass the ticker, name, or id."@]
                },
            }
        },
    }
}

fn one_warning(w: String) -> (r: Vec<String>)
    ensures
        strings_view(r@) == seq![w@],
{
    let ghost wv = w@;
    let mut v: Vec<String> = Vec::new();
    v.push(w);
    assert(strings_view(v@) =~= seq![wv]);
    v
}

fn unresolved_card(args: &DeleteStockPositionArgs, hs: &Vec<Holding>, res: Resolution) -> (r: StockPositionDeletion)
    requires
        res@ == stock_resolution(hs@, args.asset_ref@),
        res@ !is Single,
        within(res@, hs@.len() as int),
    ensures
        stock_deletion(r, *args, hs@, Seq::empty(), Seq::empty(), Seq::empty()),
        r.target is None,
{
    let (candidates, warning) = match &res {
        Resolution::Ambiguous(found) => {
            let ghost f = res@->Ambiguous_0;
            let mut c: Vec<AssetSnapshot> = Vec::new();
            let mut k: usize = 0;
            while k < found.len()
                invariant
                    f == positions(found@),
                    forall|q: int| 0 <= q < f.len() ==> 0 <= #[trigger] f[q] < hs@.len(),
                    k <= found.len(),
                    c@.len() == k,
                    forall|q: int| 0 <= q < k ==> snapshot_of(#[trigger] c@[q], hs@[f[q]]),
                decreases found.len() - k,
            {
                assert(f[k as int] == found@[k as int] as int);
                c.push(snapshot(&hs[found[k]]));
                k = k + 1;
            }
            let mut w = owned("\"");
            push_str(&mut w, args.asset_ref.as_str());
            push_str(&mut w, "\" matched ");
            let count = decimal_string(found.len());
            push_str(&mut w, count.as_str());
            push_str(&mut w, " tradable assets. Ask the user which one they mean.");
            (c, w)
        },
        Resolution::NotFound => {
            let mut w = owned("No tradable asset matching \"");
            push_str(&mut w, args.asset_ref.as_str());
            push_str(&mut w, "\" found. Call get_holdings first.");
            (Vec::new(), w)
        },
        _ => (Vec::new(), owned("assetRef is required — pass the ticker, name, or id.")),
    };
    StockPositionDeletion {
        target: None,
        positions: Vec::new(),
        activity_ids: Vec::new(),
        reason: copy_opt(&args.reason),
        validation: ValidationResult { resolved: false, candidates, warnings: one_warning(warning), is_valid: false },
    }
}

fn positions_exec(
    hs: &Vec<Holding>,
    open: &Vec<bool>,
    accts: &Vec<Account>,
    acts: &Vec<ActivityRow>,
    i: usize,
    scope: Option<String>,
    target: AssetSnapshot,
    reason: Option<String>,
) -> (r: StockPositionDeletion)
    requires
        i < hs@.len(),
        open@.len() == hs@.len(),
    ensures
        positions_card(r, hs@, open@, accts@, acts@, i as int, opt_chars(scope)),
        r.target == Some(target),
        r.reason == reason,
{
    let asset = asset_id(&hs[i]);
    let ps = affected_exec(hs, asset.as_str(), &scope);
    let ghost pv = positions(ps@);
    if ps.len() == 0 {
        let mut w = symbol(&hs[i]);
        push_str(&mut w, " resolves to a real asset but has no open positions");
        match &scope {
            Some(id) => {
                push_str(&mut w, " in ");
                let n = account_name_exec(accts, id.as_str());
                push_str(&mut w, n.as_str());
            },
            None => {},
        }
        push_str(&mut w, ".");
        proof {
            let name_part = match opt_chars(scope) {
                Some(id) => Some(account_name_for(accts@, id)),
                None => None,
            };
            assert(w@ =~= no_positions_warning(symbol_of(hs@[i as int]), name_part));
        }
        return StockPositionDeletion {
            target: Some(target),
            positions: Vec::new(),
            activity_ids: Vec::new(),
            reason,
            validation: ValidationResult { resolved: true, candidates: Vec::new(), warnings: one_warning(w), is_valid: false },
        };
    }
    let mut impacts: Vec<PositionImpact> = Vec::new();
    let mut sorted: Vec<(String, String)> = Vec::new();
    let mut any_open = false;
    let mut k: usize = 0;
    while k < ps.len()
        invariant
            pv == positions(ps@),
            pv == affected(hs@, asset@, opt_chars(scope)),
            forall|t: int| 0 <= t < ps@.len() ==> #[trigger] ps@[t] < hs@.len(),
            open@.len() == hs@.len(),
            k <= ps.len(),
            impacts@.len() == k,
            forall|q: int| 0 <= q < k ==> impact_of(#[trigger] impacts@[q], hs@, accts@, acts@, pv[q]),
            stamp_views(sorted@) == isort(all_stamps(hs@, acts@, pv, k as int), newest_first()),
            any_open == exists|t: int| 0 <= t < k && open@[pv[t]],
        decreases ps.len() - k,
    {
        let h = &hs[ps[k]];
        assert(pv[k as int] == ps@[k as int] as int);
        let stamps = stamps_exec(acts, h.account_id.as_str());
        let count = stamps.len();
        let ghost sv = stamp_views(stamps@);
        let ghost before_all = all_stamps(hs@, acts@, pv, k as int);
        let mut q: usize = 0;
        for st in it: stamps
            invariant
                it.seq() == stamps@,
                sv == stamp_views(stamps@),
                stamp_views(sorted@) == isort(before_all + sv.take(it.index() as int), newest_first()),
        {
            let ghost prefix = before_all + sv.take(it.index() as int);
            let ghost stv: Stamp = (st.0@, st.1@);
            insert_newest_first(&mut sorted, st);
            proof {
                assert(sv[it.index() as int] == stv);
                assert(before_all + sv.take(it.index() + 1) =~= prefix.push(stv));
                assert((prefix.push(stv)).drop_last() =~= prefix);
            }
        }
        proof {
            assert(sv.take(sv.len() as int) =~= sv);
            assert(all_stamps(hs@, acts@, pv, k + 1) == before_all + account_stamps(acts@, hs@[pv[k as int]].account_id@));
        }
        impacts.push(PositionImpact {
            holding: ps[k],
            account_id: owned(h.account_id.as_str()),
            account_name: account_name_exec(accts, h.account_id.as_str()),
            local_currency: owned(h.local_currency.as_str()),
            activity_count: count,
        });
        if open[ps[k]] {
            any_open = true;
        }
        k = k + 1;
    }
    let ghost ordered = isort(all_stamps(hs@, acts@, pv, pv.len() as int), newest_first());
    let mut ids: Vec<String> = Vec::new();
    let mut t: usize = 0;
    while t < sorted.len()
        invariant
            stamp_views(sorted@) == ordered,
            t <= sorted.len(),
            strings_view(ids@) == ordered.take(t as int).map_values(|x: Stamp| x.0),
        decreases sorted.len() - t,
    {
        let ghost before = strings_view(ids@);
        ids.push(owned(sorted[t].0.as_str()));
        proof {
            assert(ordered[t as int] == (sorted@[t as int].0@, sorted@[t as int].1@));
            assert(strings_view(ids@) =~= before.push(sorted@[t as int].0@));
            assert(ordered.take(t + 1).map_values(|x: Stamp| x.0) =~= ordered.take(t as int).map_values(|x: Stamp| x.0).push(
                ordered[t as int].0,
            ));
        }
        t = t + 1;
    }
    assert(ordered.take(sorted.len() as int) =~= ordered);
    let n = ids.len();
    let m = impacts.len();
    let mut w = owned("This cascade-deletes ");
    push_str(&mut w, decimal_string(n).as_str());
    push_str(&mut w, if n == 1 { " activity row" } else { " activity rows" });
    push_str(&mut w, " across ");
    push_str(&mut w, decimal_string(m).as_str());
    push_str(&mut w, if m == 1 { " account" } else { " accounts" });
    push_str(&mut w, ". The position history is gone forever; if you only want to mark the position closed, use sell records instead.");
    proof {
        reveal_strlit(" activity row");
        reveal_strlit(" activity rows");
        reveal_strlit("activity row");
        reveal_strlit("s");
        reveal_strlit(" account");
        reveal_strlit(" accounts");
        reveal_strlit("account");
        reveal_strlit(" ");
        assert(w@ == cascade_warning(n as nat, m as nat));
    }
    let mut warnings = one_warning(w);
    if any_open && n == 0 {
        let ghost before = strings_view(warnings@);
        warnings.push(owned("The holding shows an open quantity but no activities matched in the search. The position may have been imported as a snapshot — manual cleanup needed; this tool can't unwind it."));
        assert(strings_view(warnings@) =~= before + seq![snapshot_import_warning()]);
    } else {
        assert(strings_view(warnings@) =~= strings_view(warnings@) + Seq::<Seq<char>>::empty());
    }
    StockPositionDeletion {
        target: Some(target),
        positions: impacts,
        activity_ids: ids,
        reason,
        validation: ValidationResult { resolved: true, candidates: Vec::new(), warnings, is_valid: true },
    }
}

/// Which holdings are open: those whose quantity is positive, one flag per
/// holding, in order (what [`DeleteStockPositionTool::build_output`] takes).
pub fn open_flags(quantities: &Vec<Dec>) -> (r: Vec<bool>)
    requires
        forall|i: int| 0 <= i < quantities@.len() ==> (#[trigger] quantities@[i]).valid(),
    ensures
        r@.len() == quantities@.len(),
        forall|i: int| 0 <= i < quantities@.len() ==> #[trigger] r@[i] == (quantities@[i].units() > 0),
{
    let zero = Dec::zero();
    let mut out: Vec<bool> = Vec::new();
    let mut i: usize = 0;
    while i < quantities.len()
        invariant
            i <= quantities.len(),
            out@.len() == i,
            zero.units() == 0,
            zero.valid(),
            forall|k: int| 0 <= k < quantities@.len() ==> (#[trigger] quantities@[k]).valid(),
            forall|k: int| 0 <= k < i ==> #[trigger] out@[k] == (quantities@[k].units() > 0),
        decreases quantities.len() - i,
    {
        out.push(dec_lt(zero, quantities[i]));
        i = i + 1;
    }
    out
}

impl<E: AiEnvironment> DeleteStockPositionTool<E> {
    /// The card for removing the position `args` names. `holdings` are the
    /// user's holdings across accounts and `open` says, per holding,
    /// whether its quantity is positive; `accounts` are all accounts;
    /// `activities` are those the activity search returns for the asset
    /// the reference resolves to (see `resolve_stock`).
    pub fn build_output(
        &self,
        args: DeleteStockPositionArgs,
        holdings: &Vec<Holding>,
        open: &Vec<bool>,
        accounts: &Vec<Account>,
        activities: &Vec<ActivityRow>,
    ) -> (r: StockPositionDeletion)
        requires
            open@.len() == holdings@.len(),
        ensures
            stock_deletion(r, args, holdings@, open@, accounts@, activities@),
    {
        let res = resolve_stock(holdings, args.asset_ref.as_str());
        let i = match res {
            Resolution::Single(i) => i,
            _ => {
                return unresolved_card(&args, holdings, res);
            },
        };
        let target = snapshot(&holdings[i]);
        let reason = copy_opt(&args.reason);
        match &args.account_ref {
            Some(ar) => match scope_account(accounts, ar.as_str()) {
                Some(j) => positions_exec(holdings, open, accounts, activities, i, Some(owned(accounts[j].id.as_str())), target, reason),
                None => {
                    let mut w = owned("No account matching \"");
                    push_str(&mut w, ar.as_str());
                    push_str(&mut w, "\" found. Drop the account scope or call get_accounts.");
                    StockPositionDeletion {
                        target: Some(target),
                        positions: Vec::new(),
                        activity_ids: Vec::new(),
                        reason,
                        validation: ValidationResult { resolved: false, candidates: Vec::new(), warnings: one_warning(w), is_valid: false },
                    }
                },
            },
            None => positions_exec(holdings, open, accounts, activities, i, None, target, reason),
        }
    }
}

} // verus!
