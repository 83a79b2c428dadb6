//! Research Asset: who the asset is. The reference is matched against the
//! portfolio first (id, then symbol, then name, then part of either), and
//! otherwise taken as a raw ticker. Prices, ranges and technicals are
//! floating-point work the host does on the quotes it fetches for the
//! symbol settled here.
use vstd::prelude::*;

use std::sync::Arc;

use crate::accounts::copy_opt;
use crate::holdings::{AssetKind, Holding};
use crate::sorting::{isort, lemma_ins_at};
use crate::text::{is_infix, owned, push_str, str_contains, str_eq, to_lowercase, trim, trimmed, unicode_lowercase};
use crate::tools::common::strings_view;
use crate::text::opt_chars;
use crate::tools::env::AiEnvironment;

verus! {

/// What the assistant passes.
pub struct ResearchAssetArgs {
    /// Asset id, ticker, or part of a name.
    pub asset_ref: String,
    /// How many days of history to look at (365 when omitted).
    pub history_days: Option<u32>,
}

/// What was looked up.
pub struct AssetIdentity {
    pub asset_id: Option<String>,
    pub symbol: String,
    pub name: Option<String>,
    pub currency: String,
    pub asset_kind: Option<String>,
}

/// Looks up a symbol's market picture next to the user's position.
pub struct ResearchAssetTool<E: AiEnvironment> {
    env: Arc<E>,
}

impl<E: AiEnvironment> ResearchAssetTool<E> {
    pub fn new(env: Arc<E>) -> (r: Self)
        ensures
            r.env() == env,
    {
        ResearchAssetTool { env }
    }

    pub closed spec fn env(&self) -> Arc<E> {
        self.env
    }
}

/// The history window in days: the request (365 when omitted) clamped to
/// 30 days through five years.
pub open spec fn window(days: Option<u32>) -> int {
    let d = match days {
        Some(d) => d as int,
        None => 365,
    };
    if d < 30 {
        30
    } else if d > 1825 {
        1825
    } else {
        d
    }
}

pub fn history_window(days: Option<u32>) -> (r: i64)
    ensures
        r == window(days),
{
    let d: u32 = match days {
        Some(d) => d,
        None => 365,
    };
    if d < 30 {
        30
    } else if d > 1825 {
        1825
    } else {
        d as i64
    }
}

/// Quotes ordered by their time stamp.
pub open spec fn by_stamp<T>() -> spec_fn((i64, T), (i64, T)) -> bool {
    |a: (i64, T), b: (i64, T)| a.0 < b.0
}

/// The quotes of `s` stamped at `cutoff` or later, in order.
pub open spec fn stamped_since<T>(s: Seq<(i64, T)>, cutoff: int) -> Seq<(i64, T)>
    decreases s.len(),
{
    if s.len() == 0 {
        s
    } else {
        let kept = stamped_since(s.drop_last(), cutoff);
        if s.last().0 >= cutoff {
            kept.push(s.last())
        } else {
            kept
        }
    }
}

/// The history the technicals read: the quotes (each with its time stamp
/// in milliseconds) in time order, quotes stamped alike keeping their
/// order, without those older than `days` days before `now_millis`.
pub fn recent_history<T>(quotes: Vec<(i64, T)>, now_millis: i64, days: i64) -> (r: Vec<(i64, T)>)
    requires
        i64::MIN <= days * 86_400_000 <= i64::MAX,
        i64::MIN <= now_millis - days * 86_400_000 <= i64::MAX,
    ensures
        r@ == stamped_since(isort(quotes@, by_stamp()), now_millis - days * 86_400_000),
{
    let cutoff: i64 = now_millis - days * 86_400_000;
    let ghost all = quotes@;
    let mut rest = quotes;
    let mut sorted: Vec<(i64, T)> = Vec::new();
    let ghost mut i: int = 0;
    assert(all.take(0) =~= Seq::<(i64, T)>::empty());
    while rest.len() > 0
        invariant
            0 <= i <= all.len(),
            rest@ == all.skip(i),
            sorted@ == isort(all.take(i), by_stamp()),
        decreases rest.len(),
    {
        let ghost old_rest = rest@;
        let q = rest.remove(0);
        assert(q == all[i]) by {
            assert(old_rest[0] == all.skip(i)[0]);
        }
        assert(rest@ =~= all.skip(i + 1)) by {
            assert forall|t: int| 0 <= t < rest@.len() implies rest@[t] == all.skip(i + 1)[t] by {
                assert(rest@[t] == old_rest[t + 1]);
            }
        }
        let mut k: usize = sorted.len();
        while k > 0 && q.0 < sorted[k - 1].0
            invariant
                k <= sorted.len(),
                forall|t: int| k <= t < sorted.len() ==> (by_stamp())(q, #[trigger] sorted@[t]),
            decreases k,
        {
            k = k - 1;
        }
        let ghost before = sorted@;
        proof {
            lemma_ins_at(before, q, by_stamp(), k as int);
            assert(all.take(i + 1).drop_last() =~= all.take(i));
            assert(all.take(i + 1).last() == all[i]);
        }
        sorted.insert(k, q);
        assert(sorted@ =~= before.take(k as int).push(q) + before.skip(k as int));
        proof {
            i = i + 1;
        }
    }
    assert(all.take(i) =~= all);
    let ghost ordered = sorted@;
    let mut left = sorted;
    let mut out: Vec<(i64, T)> = Vec::new();
    let ghost mut j: int = 0;
    assert(ordered.take(0) =~= Seq::<(i64, T)>::empty());
    while left.len() > 0
        invariant
            0 <= j <= ordered.len(),
            left@ == ordered.skip(j),
            out@ == stamped_since(ordered.take(j), cutoff as int),
        decreases left.len(),
    {
        let ghost old_left = left@;
        let q = left.remove(0);
        assert(q == ordered[j]) by {
            assert(old_left[0] == ordered.skip(j)[0]);
        }
        assert(left@ =~= ordered.skip(j + 1)) by {
            assert forall|t: int| 0 <= t < left@.len() implies left@[t] == ordered.skip(j + 1)[t] by {
                assert(left@[t] == old_left[t + 1]);
            }
        }
        proof {
            assert(ordered.take(j + 1).drop_last() =~= ordered.take(j));
            assert(ordered.take(j + 1).last() == ordered[j]);
        }
        if q.0 >= cutoff {
            out.push(q);
        }
        proof {
            j = j + 1;
        }
    }
    assert(ordered.take(j) =~= ordered);
    out
}

/// Which pass a holding matches the trimmed reference `r` (lower-cased
/// `lower`) in: 0 by id, 1 by symbol, 2 by name, 3 by part of either.
pub open spec fn matches_pass(h: Holding, r: Seq<char>, lower: Seq<char>, pass: int) -> bool {
    match h.instrument {
        Some(i) => if pass == 0 {
            i.id@ == r
        } else if pass == 1 {
            unicode_lowercase(i.symbol@) == lower
        } else if pass == 2 {
            match i.name {
                Some(n) => unicode_lowercase(n@) == lower,
                None => false,
            }
        } else {
            is_infix(lower, unicode_lowercase(i.symbol@)) || match i.name {
                Some(n) => is_infix(lower, unicode_lowercase(n@)),
                None => false,
            }
        },
        None => false,
    }
}

/// The first holding (by position) matching in `pass`.
pub open spec fn first_in_pass(hs: Seq<Holding>, r: Seq<char>, lower: Seq<char>, pass: int) -> Option<int> {
    if exists|k: int| 0 <= k < hs.len() && matches_pass(hs[k], r, lower, pass) {
        Some(
            choose|k: int|
                0 <= k < hs.len() && matches_pass(hs[k], r, lower, pass) && forall|j: int|
                    0 <= j < k ==> !matches_pass(hs[j], r, lower, pass),
        )
    } else {
        None
    }
}

/// The holding the reference names: the first match of the earliest pass
/// that matches at all; none for a blank reference.
pub open spec fn researched(hs: Seq<Holding>, reference: Seq<char>) -> Option<int> {
    let r = trimmed(reference);
    let lower = unicode_lowercase(r);
    if r.len() == 0 {
        None
    } else if first_in_pass(hs, r, lower, 0) is Some {
        first_in_pass(hs, r, lower, 0)
    } else if first_in_pass(hs, r, lower, 1) is Some {
        first_in_pass(hs, r, lower, 1)
    } else if first_in_pass(hs, r, lower, 2) is Some {
        first_in_pass(hs, r, lower, 2)
    } else {
        first_in_pass(hs, r, lower, 3)
    }
}

fn matches_exec(h: &Holding, r: &str, lower: &str, pass: u8) -> (b: bool)
    ensures
        b == matches_pass(*h, r@, lower@, pass as int),
{
    match &h.instrument {
        Some(i) => if pass == 0 {
            str_eq(i.id.as_str(), r)
        } else if pass == 1 {
            let s = to_lowercase(i.symbol.as_str());
            str_eq(s.as_str(), lower)
        } else if pass == 2 {
            match &i.name {
                Some(n) => {
                    let l = to_lowercase(n.as_str());
                    str_eq(l.as_str(), lower)
                },
                None => false,
            }
        } else {
            let s = to_lowercase(i.symbol.as_str());
            let by_symbol = str_contains(s.as_str(), lower);
            let by_name = match &i.name {
                Some(n) => {
                    let l = to_lowercase(n.as_str());
                    str_contains(l.as_str(), lower)
                },
                None => false,
            };
            by_symbol || by_name
        },
        None => false,
    }
}

fn first_exec(hs: &Vec<Holding>, r: &str, lower: &str, pass: u8) -> (f: Option<usize>)
    ensures
        match f {
            Some(k) => first_in_pass(hs@, r@, lower@, pass as int) == Some(k as int) && k < hs@.len(),
            None => first_in_pass(hs@, r@, lower@, pass as int) is None,
        },
{
    let mut k: usize = 0;
    while k < hs.len()
        invariant
            k <= hs.len(),
            forall|j: int| 0 <= j < k ==> !matches_pass(#[trigger] hs@[j], r@, lower@, pass as int),
        decreases hs.len() - k,
    {
        if matches_exec(&hs[k], r, lower, pass) {
            proof {
                let c = choose|c: int|
                    0 <= c < hs@.len() && matches_pass(hs@[c], r@, lower@, pass as int) && forall|j: int|
                        0 <= j < c ==> !matches_pass(hs@[j], r@, lower@, pass as int);
                if c < k {
                    assert(!matches_pass(hs@[c], r@, lower@, pass as int));
                } else if c > k {
                    assert(!matches_pass(hs@[k as int], r@, lower@, pass as int));
                }
            }
            return Some(k);
        }
        k = k + 1;
    }
    None
}

/// The holding `reference` names, by position.
pub fn resolve_research_holding(hs: &Vec<Holding>, reference: &str) -> (f: Option<usize>)
    ensures
        match f {
            Some(k) => researched(hs@, reference@) == Some(k as int) && k < hs@.len(),
            None => researched(hs@, reference@) is None,
        },
{
    let t = trim(reference);
    if t.as_str().is_empty() {
        return None;
    }
    let lower = to_lowercase(t.as_str());
    let ghost r = t@;
    let ghost l = lower@;
    let p0 = first_exec(hs, t.as_str(), lower.as_str(), 0);
    if p0.is_some() {
        return p0;
    }
    let p1 = first_exec(hs, t.as_str(), lower.as_str(), 1);
    if p1.is_some() {
        return p1;
    }
    let p2 = first_exec(hs, t.as_str(), lower.as_str(), 2);
    if p2.is_some() {
        return p2;
    }
    first_exec(hs, t.as_str(), lower.as_str(), 3)
}

/// The label shown for an asset kind.
pub open spec fn kind_name(k: AssetKind) -> Seq<char> {
    match k {
        AssetKind::Property => "PROPERTY"@,
        AssetKind::Vehicle => "VEHICLE"@,
        AssetKind::Collectible => "COLLECTIBLE"@,
        AssetKind::PreciousMetal => "PRECIOUS_METAL"@,
        AssetKind::PrivateEquity => "PRIVATE_EQUITY"@,
        AssetKind::Liability => "LIABILITY"@,
        _ => "OTHER"@,
    }
}

pub fn format_asset_kind(k: AssetKind) -> (r: String)
    ensures
        r@ == kind_name(k),
{
    match k {
        AssetKind::Property => owned("PROPERTY"),
        AssetKind::Vehicle => owned("VEHICLE"),
        AssetKind::Collectible => owned("COLLECTIBLE"),
        AssetKind::PreciousMetal => owned("PRECIOUS_METAL"),
        AssetKind::PrivateEquity => owned("PRIVATE_EQUITY"),
        AssetKind::Liability => owned("LIABILITY"),
        _ => owned("OTHER"),
    }
}

/// The identity researched for `reference`: the matched holding's
/// instrument (its symbol quoted; the reference itself when it has no
/// instrument), or the raw reference as a ticker in the base currency.
pub open spec fn identity_of(id: AssetIdentity, hs: Seq<Holding>, reference: Seq<char>, base: Seq<char>) -> bool {
    match researched(hs, reference) {
        Some(k) => {
            let h = hs[k];
            &&& id.symbol@ == match h.instrument {
                Some(i) => i.symbol@,
                None => reference,
            }
            &&& opt_chars(id.asset_id) == match h.instrument {
                Some(i) => Some(i.id@),
                None => None,
            }
            &&& opt_chars(id.name) == match h.instrument {
                Some(i) => opt_chars(i.name),
                None => None,
            }
            &&& id.currency@ == h.local_currency@
            &&& opt_chars(id.asset_kind) == match h.asset_kind {
                Some(k) => Some(kind_name(k)),
                None => None,
            }
        },
        None => {
            &&& id.symbol@ == reference
            &&& id.asset_id is None
            &&& id.name is None
            &&& id.currency@ == base
            &&& id.asset_kind is None
        },
    }
}

/// The caveats of a research answer: no quote history for the symbol,
/// then no matching holding.
pub open spec fn research_warnings(symbol: Seq<char>, reference: Seq<char>, no_history: bool, matched: bool) -> Seq<Seq<char>> {
    let a = if no_history {
        seq![
            "No historical quotes found for \""@ + symbol
                + "\". Price + technicals will be empty; the LLM should answer from portfolio context only."@,
        ]
    } else {
        Seq::empty()
    };
    if !matched {
        a.push(
            "\""@ + reference
                + "\" doesn't match any holding in the portfolio — answering as general research, not as personalised advice."@,
        )
    } else {
        a
    }
}

impl<E: AiEnvironment> ResearchAssetTool<E> {
    /// Who `args` asks about among the user's `holdings`: the matched
    /// holding's position and the identity to quote.
    pub fn identify(&self, args: &ResearchAssetArgs, holdings: &Vec<Holding>, base_currency: &str) -> (r: (
        Option<usize>,
        AssetIdentity,
    ))
        ensures
            match r.0 {
                Some(k) => researched(holdings@, args.asset_ref@) == Some(k as int),
                None => researched(holdings@, args.asset_ref@) is None,
            },
            identity_of(r.1, holdings@, args.asset_ref@, base_currency@),
    {
        let found = resolve_research_holding(holdings, args.asset_ref.as_str());
        match found {
            Some(k) => {
                let h = &holdings[k];
                let (symbol, asset_id, name) = match &h.instrument {
                    Some(i) => (owned(i.symbol.as_str()), Some(owned(i.id.as_str())), copy_opt(&i.name)),
                    None => (owned(args.asset_ref.as_str()), None, None),
                };
                let asset_kind = match h.asset_kind {
                    Some(kind) => Some(format_asset_kind(kind)),
                    None => None,
                };
                (
                    Some(k),
                    AssetIdentity { asset_id, symbol, name, currency: owned(h.local_currency.as_str()), asset_kind },
                )
            },
            None => (
                None,
                AssetIdentity {
                    asset_id: None,
                    symbol: owned(args.asset_ref.as_str()),
                    name: None,
                    currency: owned(base_currency),
                    asset_kind: None,
                },
            ),
        }
    }

    /// The caveats to attach: `no_history` says the quote history for
    /// `symbol` came back empty; `matched` that a holding was found.
    pub fn warnings(&self, symbol: &str, args: &ResearchAssetArgs, no_history: bool, matched: bool) -> (r: Vec<String>)
        ensures
            strings_view(r@) == research_warnings(symbol@, args.asset_ref@, no_history, matched),
    {
        let mut out: Vec<String> = Vec::new();
        if no_history {
            let mut w = owned("No historical quotes found for \"");
            push_str(&mut w, symbol);
            push_str(&mut w, "\". Price + technicals will be empty; the LLM should answer from portfolio context only.");
            out.push(w);
        }
        if !matched {
            let mut w = owned("\"");
            push_str(&mut w, args.asset_ref.as_str());
            push_str(&mut w, "\" doesn't match any holding in the portfolio — answering as general research, not as personalised advice.");
            let ghost before = strings_view(out@);
            out.push(w);
            assert(strings_view(out@) =~= before.push(out@[out@.len() - 1]@));
        }
        assert(strings_view(out@) =~= research_warnings(symbol@, args.asset_ref@, no_history, matched));
        out
    }
}

} // verus!
