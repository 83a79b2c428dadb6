//! Read-only detection of assets that probably stand for the same real
//! instrument but were stored as separate rows. Nothing is merged: groups
//! are only flagged, and assets with different explicit exchanges are never
//! grouped (those are usually genuine cross-listings).
use vstd::prelude::*;

use crate::sorting::{isort, lemma_ins_at, lemma_isort_elements, lemma_isort_keeps, lemma_isort_sorted, lemma_string_orders_total, lemma_total_is_weak, lex_fn, sorted_by, sort_strings, str_less, str_lt_fn, strs_less, strs_lt};
use crate::text::{owned, str_eq, to_uppercase, trim, trimmed, unicode_uppercase};
use crate::tools::common::strings_view;
use crate::text::opt_chars;

verus! {

/// The fields of a stored asset that duplicate detection reads.
pub struct AssetRecord {
    pub id: String,
    /// `metadata.identifiers.isin`, when the metadata holds a string there.
    pub isin: Option<String>,
    pub instrument_exchange_mic: Option<String>,
    pub instrument_symbol: Option<String>,
    /// The instrument type's name (`Equity`, `Crypto`, ...), when set.
    pub instrument_type: Option<String>,
    pub quote_ccy: String,
}

/// Why a set of assets was flagged. A group joined transitively may carry
/// several.
pub enum DuplicateReason {
    /// The assets carry an identical ISIN.
    SharedIsin { isin: String },
    /// Same instrument type, symbol and quote currency, and at least one of
    /// them has no exchange set.
    AmbiguousExchange,
}

/// Assets that probably stand for the same instrument.
pub struct DuplicateAssetGroup {
    /// The ids, sorted.
    pub asset_ids: Vec<String>,
    pub reasons: Vec<DuplicateReason>,
}

/// `s` trimmed and upper-cased, or nothing when that leaves it empty.
pub open spec fn norm(s: Seq<char>) -> Option<Seq<char>> {
    if trimmed(s).len() > 0 {
        Some(unicode_uppercase(trimmed(s)))
    } else {
        None
    }
}

pub open spec fn norm_opt(o: Option<Seq<char>>) -> Option<Seq<char>> {
    match o {
        Some(s) => norm(s),
        None => None,
    }
}

/// The grouping key of the exchange rule: (type, SYMBOL, QUOTE CURRENCY),
/// for assets with a non-blank symbol and a type.
pub type SymKey = (Seq<char>, Seq<char>, Seq<char>);

/// What detection reads of one asset: its ISIN, its exchange, its key.
pub type AssetKeys = (Option<Seq<char>>, Option<Seq<char>>, Option<SymKey>);

pub open spec fn sym_key(a: AssetRecord) -> Option<SymKey> {
    match (a.instrument_symbol, a.instrument_type) {
        (Some(s), Some(t)) => if trimmed(s@).len() > 0 {
            Some((t@, unicode_uppercase(trimmed(s@)), unicode_uppercase(trimmed(a.quote_ccy@))))
        } else {
            None
        },
        _ => None,
    }
}

pub open spec fn keys_of(a: AssetRecord) -> AssetKeys {
    (norm_opt(opt_chars(a.isin)), norm_opt(opt_chars(a.instrument_exchange_mic)), sym_key(a))
}

pub open spec fn all_keys(assets: Seq<AssetRecord>) -> Seq<AssetKeys> {
    assets.map_values(|a: AssetRecord| keys_of(a))
}

/// Every asset under `key` that has an exchange has exchange `m`.
pub open spec fn exchanges_agree(ks: Seq<AssetKeys>, key: SymKey, m: Option<Seq<char>>) -> bool {
    forall|k: int| 0 <= k < ks.len() && (#[trigger] ks[k]).2 == Some(key) && ks[k].1 is Some ==> ks[k].1 == m
}

/// The two assets are directly tied: a shared ISIN; or the same key with
/// the same exchange (or both without one); or the same key where one has
/// no exchange and every asset under that key with an exchange has the
/// other's.
pub open spec fn linked(ks: Seq<AssetKeys>, i: int, j: int) -> bool {
    let (a, b) = (ks[i], ks[j]);
    ||| a.0 is Some && a.0 == b.0
    ||| a.2 is Some && a.2 == b.2 && (a.1 == b.1
        || (a.1 is None && exchanges_agree(ks, a.2->0, b.1))
        || (b.1 is None && exchanges_agree(ks, a.2->0, a.1)))
}

/// `f` gives tied assets the same value.
pub open spec fn respects(ks: Seq<AssetKeys>, f: spec_fn(int) -> int) -> bool {
    forall|i: int, j: int| 0 <= i < ks.len() && 0 <= j < ks.len() && #[trigger] linked(ks, i, j) ==> f(i) == f(j)
}

/// `a` and `b` fall in one connected group of tied assets: every labelling
/// that respects the ties labels them alike.
pub open spec fn same_group(ks: Seq<AssetKeys>, a: int, b: int) -> bool {
    forall|f: spec_fn(int) -> int| #[trigger] respects(ks, f) ==> f(a) == f(b)
}

proof fn lemma_same_group_trans(ks: Seq<AssetKeys>, a: int, b: int, c: int)
    requires
        same_group(ks, a, b),
        same_group(ks, b, c),
    ensures
        same_group(ks, a, c),
{
    assert forall|f: spec_fn(int) -> int| #[trigger] respects(ks, f) implies f(a) == f(c) by {
        assert(f(a) == f(b));
        assert(f(b) == f(c));
    }
}

proof fn lemma_linked_same_group(ks: Seq<AssetKeys>, a: int, b: int)
    requires
        0 <= a < ks.len(),
        0 <= b < ks.len(),
        linked(ks, a, b),
    ensures
        same_group(ks, a, b),
{
    assert forall|f: spec_fn(int) -> int| #[trigger] respects(ks, f) implies f(a) == f(b) by {
        assert(linked(ks, a, b));
    }
}

proof fn lemma_same_group_symmetric(ks: Seq<AssetKeys>, a: int, b: int)
    requires
        same_group(ks, a, b),
    ensures
        same_group(ks, b, a),
{
    assert forall|f: spec_fn(int) -> int| #[trigger] respects(ks, f) implies f(b) == f(a) by {
        assert(f(a) == f(b));
    }
}

/// The positions below `k` in the group of `r`, in order.
pub open spec fn members_below(ks: Seq<AssetKeys>, r: int, k: int) -> Seq<int>
    decreases k,
{
    if k <= 0 {
        Seq::empty()
    } else {
        let m = members_below(ks, r, k - 1);
        if same_group(ks, r, k - 1) {
            m.push(k - 1)
        } else {
            m
        }
    }
}

/// The positions in the group of `r`, in order.
pub open spec fn members(ks: Seq<AssetKeys>, r: int) -> Seq<int> {
    members_below(ks, r, ks.len() as int)
}

/// `r` is the first position of its group.
pub open spec fn leads(ks: Seq<AssetKeys>, r: int) -> bool {
    forall|b: int| 0 <= b < r ==> !#[trigger] same_group(ks, r, b)
}

/// Another member carries the same ISIN as member `x`.
pub open spec fn has_twin(ks: Seq<AssetKeys>, m: Seq<int>, x: int) -> bool {
    exists|t: int| 0 <= t < m.len() && m[t] != x && #[trigger] ks[m[t]].0 == ks[x].0
}

/// The ISINs two or more of the first `k` members share, each once, in
/// member order.
pub open spec fn shared_below(ks: Seq<AssetKeys>, m: Seq<int>, k: int) -> Seq<Seq<char>>
    decreases k,
{
    if k <= 0 {
        Seq::empty()
    } else {
        let acc = shared_below(ks, m, k - 1);
        let x = m[k - 1];
        match ks[x].0 {
            Some(s) => if has_twin(ks, m, x) && !acc.contains(s) {
                acc.push(s)
            } else {
                acc
            },
            None => acc,
        }
    }
}

/// The ISINs shared by two or more members, sorted.
pub open spec fn shared_isins(ks: Seq<AssetKeys>, m: Seq<int>) -> Seq<Seq<char>> {
    isort(shared_below(ks, m, m.len() as int), str_lt_fn())
}

/// Two members share an exchange key and one of them has no exchange.
pub open spec fn ambiguous(ks: Seq<AssetKeys>, m: Seq<int>) -> bool {
    exists|t: int, u: int|
        0 <= t < u < m.len() && (#[trigger] ks[m[t]]).2 is Some && ks[m[t]].2 == (#[trigger] ks[m[u]]).2 && (
        ks[m[t]].1 is None || ks[m[u]].1 is None)
}

/// A reason as seen by specifications: the ISIN of a shared-ISIN reason,
/// nothing for the ambiguous-exchange reason.
pub type ReasonView = Option<Seq<char>>;

impl DuplicateReason {
    pub open spec fn view(&self) -> ReasonView {
        match self {
            DuplicateReason::SharedIsin { isin } => Some(isin@),
            DuplicateReason::AmbiguousExchange => None,
        }
    }
}

pub open spec fn reason_views(v: Seq<DuplicateReason>) -> Seq<ReasonView> {
    v.map_values(|r: DuplicateReason| r@)
}

/// The reasons of a group: each shared ISIN (sorted), then the ambiguous
/// exchange.
pub open spec fn reasons(ks: Seq<AssetKeys>, m: Seq<int>) -> Seq<ReasonView> {
    shared_isins(ks, m).map_values(|s: Seq<char>| Some(s)) + if ambiguous(ks, m) {
        seq![None]
    } else {
        Seq::empty()
    }
}

/// A group as seen by specifications: its ids, its reasons.
pub type GroupView = (Seq<Seq<char>>, Seq<ReasonView>);

impl DuplicateAssetGroup {
    pub open spec fn view(&self) -> GroupView {
        (strings_view(self.asset_ids@), reason_views(self.reasons@))
    }
}

pub open spec fn group_views(v: Seq<DuplicateAssetGroup>) -> Seq<GroupView> {
    v.map_values(|g: DuplicateAssetGroup| g@)
}

pub open spec fn ids_at(assets: Seq<AssetRecord>, m: Seq<int>) -> Seq<Seq<char>> {
    m.map_values(|x: int| assets[x].id@)
}

/// The group led by `r` is reported: it has two or more members and a
/// reason.
pub open spec fn reported(ks: Seq<AssetKeys>, r: int) -> bool {
    leads(ks, r) && members(ks, r).len() >= 2 && reasons(ks, members(ks, r)).len() > 0
}

pub open spec fn group_of(assets: Seq<AssetRecord>, r: int) -> GroupView {
    let ks = all_keys(assets);
    (isort(ids_at(assets, members(ks, r)), str_lt_fn()), reasons(ks, members(ks, r)))
}

/// The reported groups led by positions below `k`, by leading position.
pub open spec fn groups_below(assets: Seq<AssetRecord>, k: int) -> Seq<GroupView>
    decreases k,
{
    if k <= 0 {
        Seq::empty()
    } else {
        let g = groups_below(assets, k - 1);
        if reported(all_keys(assets), k - 1) {
            g.push(group_of(assets, k - 1))
        } else {
            g
        }
    }
}

pub open spec fn by_ids() -> spec_fn(GroupView, GroupView) -> bool {
    |g: GroupView, h: GroupView| strs_lt(g.0, h.0)
}

/// The groups reported for `assets`: every group of assets tied by a shared
/// ISIN or an unambiguous exchange key, with two or more members and a
/// reason, its ids sorted; the groups sorted by their ids.
pub open spec fn duplicate_groups(assets: Seq<AssetRecord>) -> Seq<GroupView> {
    isort(groups_below(assets, assets.len() as int), by_ids())
}

/// The normalised keys of one asset, as executable values.
struct Keys {
    isin: Option<String>,
    mic: Option<String>,
    sym: Option<(String, String, String)>,
}

impl Keys {
    spec fn view(&self) -> AssetKeys {
        (
            opt_chars(self.isin),
            opt_chars(self.mic),
            match self.sym {
                Some((t, s, c)) => Some((t@, s@, c@)),
                None => None,
            },
        )
    }
}

spec fn keys_view(v: Seq<Keys>) -> Seq<AssetKeys> {
    v.map_values(|k: Keys| k@)
}

fn norm_exec(s: &str) -> (r: Option<String>)
    ensures
        opt_chars(r) == norm(s@),
{
    let t = trim(s);
    if t.as_str().is_empty() {
        None
    } else {
        Some(to_uppercase(t.as_str()))
    }
}

fn norm_opt_exec(o: &Option<String>) -> (r: Option<String>)
    ensures
        opt_chars(r) == norm_opt(opt_chars(*o)),
{
    match o {
        Some(s) => norm_exec(s.as_str()),
        None => None,
    }
}

fn keys_exec(a: &AssetRecord) -> (k: Keys)
    ensures
        k@ == keys_of(*a),
{
    let sym = match (&a.instrument_symbol, &a.instrument_type) {
        (Some(s), Some(t)) => {
            let ts = trim(s.as_str());
            if ts.as_str().is_empty() {
                None
            } else {
                let tc = trim(a.quote_ccy.as_str());
                Some((owned(t.as_str()), to_uppercase(ts.as_str()), to_uppercase(tc.as_str())))
            }
        },
        _ => None,
    };
    Keys { isin: norm_opt_exec(&a.isin), mic: norm_opt_exec(&a.instrument_exchange_mic), sym }
}

fn opt_str_eq(a: &Option<String>, b: &Option<String>) -> (r: bool)
    ensures
        r == (opt_chars(*a) == opt_chars(*b)),
{
    match (a, b) {
        (Some(x), Some(y)) => str_eq(x.as_str(), y.as_str()),
        (None, None) => true,
        _ => false,
    }
}

fn sym_eq(a: &Option<(String, String, String)>, b: &Option<(String, String, String)>) -> (r: bool)
    ensures
        r == (match (*a, *b) {
            (Some((t1, s1, c1)), Some((t2, s2, c2))) => t1@ == t2@ && s1@ == s2@ && c1@ == c2@,
            (None, None) => true,
            _ => false,
        }),
{
    match (a, b) {
        (Some((t1, s1, c1)), Some((t2, s2, c2))) => str_eq(t1.as_str(), t2.as_str()) && str_eq(s1.as_str(), s2.as_str())
            && str_eq(c1.as_str(), c2.as_str()),
        (None, None) => true,
        _ => false,
    }
}

/// Whether every asset under asset `i`'s key that has an exchange has
/// asset `i`'s exchange.
fn agrees(keys: &Vec<Keys>, i: usize) -> (r: bool)
    requires
        i < keys.len(),
        keys@[i as int]@.2 is Some,
    ensures
        r == exchanges_agree(keys_view(keys@), keys@[i as int]@.2->0, keys@[i as int]@.1),
{
    let ghost ks = keys_view(keys@);
    let mut k: usize = 0;
    while k < keys.len()
        invariant
            i < keys.len(),
            k <= keys.len(),
            ks == keys_view(keys@),
            ks[i as int].2 is Some,
            forall|q: int| 0 <= q < k && (#[trigger] ks[q]).2 == ks[i as int].2 && ks[q].1 is Some ==> ks[q].1 == ks[i as int].1,
        decreases keys.len() - k,
    {
        if sym_eq(&keys[k].sym, &keys[i].sym) && keys[k].mic.is_some() && !opt_str_eq(&keys[k].mic, &keys[i].mic) {
            assert(ks[k as int].2 == ks[i as int].2);
            return false;
        }
        k = k + 1;
    }
    true
}

fn linked_exec(keys: &Vec<Keys>, agree: &Vec<bool>, i: usize, j: usize) -> (r: bool)
    requires
        i < keys.len(),
        j < keys.len(),
        agree.len() == keys.len(),
        forall|q: int| 0 <= q < keys.len() && keys_view(keys@)[q].2 is Some ==> #[trigger] agree@[q] == exchanges_agree(
            keys_view(keys@),
            keys_view(keys@)[q].2->0,
            keys_view(keys@)[q].1,
        ),
    ensures
        r == linked(keys_view(keys@), i as int, j as int),
{
    let ghost ks = keys_view(keys@);
    let a = &keys[i];
    let b = &keys[j];
    let by_isin = a.isin.is_some() && opt_str_eq(&a.isin, &b.isin);
    let same_key = a.sym.is_some() && sym_eq(&a.sym, &b.sym);
    let by_key = same_key && (opt_str_eq(&a.mic, &b.mic) || (a.mic.is_none() && b.mic.is_some() && agree[j]) || (
    b.mic.is_none() && a.mic.is_some() && agree[i]));
    proof {
        if same_key {
            assert(ks[i as int].2 == ks[j as int].2);
            assert(agree@[j as int] == exchanges_agree(ks, ks[i as int].2->0, ks[j as int].1));
            assert(agree@[i as int] == exchanges_agree(ks, ks[i as int].2->0, ks[i as int].1));
            if ks[i as int].1 is None && exchanges_agree(ks, ks[i as int].2->0, ks[j as int].1) && ks[j as int].1 is None {
                assert(ks[i as int].1 == ks[j as int].1);
            }
            if ks[j as int].1 is None && exchanges_agree(ks, ks[i as int].2->0, ks[i as int].1) && ks[i as int].1 is None {
                assert(ks[i as int].1 == ks[j as int].1);
            }
        }
    }
    by_isin || by_key
}

fn relabel(label: &mut Vec<usize>, from: usize, to: usize)
    ensures
        final(label)@.len() == old(label)@.len(),
        forall|x: int| 0 <= x < old(label)@.len() ==> #[trigger] final(label)@[x] == if old(label)@[x] == from {
            to
        } else {
            old(label)@[x]
        },
{
    let ghost before = label@;
    let mut k: usize = 0;
    while k < label.len()
        invariant
            label@.len() == before.len(),
            k <= label.len(),
            forall|x: int| 0 <= x < k ==> #[trigger] label@[x] == if before[x] == from {
                to
            } else {
                before[x]
            },
            forall|x: int| k <= x < before.len() ==> #[trigger] label@[x] == before[x],
        decreases label.len() - k,
    {
        if label[k] == from {
            label.set(k, to);
        }
        k = k + 1;
    }
}

/// Pairs `(p, q)` the pairwise pass has visited before `(i, j)`.
spec fn visited(p: int, q: int, i: int, j: int) -> bool {
    p < i || (p == i && q < j)
}

spec fn label_ok(ks: Seq<AssetKeys>, label: Seq<usize>) -> bool {
    &&& label.len() == ks.len()
    &&& forall|x: int| 0 <= x < label.len() ==> #[trigger] label[x] < label.len() && label[label[x] as int] == label[x]
    &&& forall|a: int, b: int| 0 <= a < label.len() && 0 <= b < label.len() && #[trigger] label[a] == #[trigger] label[b] ==> same_group(ks, a, b)
}

/// Labels each asset with a member of its group: two assets share a label
/// exactly when they fall in one group.
fn group_labels(keys: &Vec<Keys>) -> (label: Vec<usize>)
    ensures
        label_ok(keys_view(keys@), label@),
        forall|a: int, b: int| 0 <= a < label@.len() && 0 <= b < label@.len() ==> (#[trigger] label@[a] == #[trigger] label@[b]) == same_group(keys_view(keys@), a, b),
{
    let ghost ks = keys_view(keys@);
    let n = keys.len();
    let mut agree: Vec<bool> = Vec::new();
    let mut q: usize = 0;
    while q < n
        invariant
            n == keys.len(),
            ks == keys_view(keys@),
            q <= n,
            agree.len() == q,
            forall|x: int| 0 <= x < q && ks[x].2 is Some ==> #[trigger] agree@[x] == exchanges_agree(ks, ks[x].2->0, ks[x].1),
        decreases n - q,
    {
        let a = if keys[q].sym.is_some() {
            agrees(keys, q)
        } else {
            false
        };
        agree.push(a);
        q = q + 1;
    }
    let mut label: Vec<usize> = Vec::new();
    let mut x: usize = 0;
    while x < n
        invariant
            n == keys.len(),
            x <= n,
            label@.len() == x,
            forall|y: int| 0 <= y < x ==> #[trigger] label@[y] == y,
        decreases n - x,
    {
        label.push(x);
        x = x + 1;
    }
    proof {
        assert forall|a: int, b: int| 0 <= a < label@.len() && 0 <= b < label@.len() && #[trigger] label@[a] == #[trigger] label@[b] implies same_group(ks, a, b) by {
            assert(a == b);
        }
    }
    let mut i: usize = 0;
    while i < n
        invariant
            n == keys.len(),
            ks == keys_view(keys@),
            agree.len() == n,
            forall|x: int| 0 <= x < n && ks[x].2 is Some ==> #[trigger] agree@[x] == exchanges_agree(ks, ks[x].2->0, ks[x].1),
            i <= n,
            label_ok(ks, label@),
            forall|p: int, q: int| 0 <= p < n && 0 <= q < n && visited(p, q, i as int, 0) && #[trigger] linked(ks, p, q) ==> label@[p] == label@[q],
        decreases n - i,
    {
        let mut j: usize = 0;
        while j < n
            invariant
                n == keys.len(),
                ks == keys_view(keys@),
                agree.len() == n,
                forall|x: int| 0 <= x < n && ks[x].2 is Some ==> #[trigger] agree@[x] == exchanges_agree(ks, ks[x].2->0, ks[x].1),
                i < n,
                j <= n,
                label_ok(ks, label@),
                forall|p: int, q: int| 0 <= p < n && 0 <= q < n && visited(p, q, i as int, j as int) && #[trigger] linked(ks, p, q) ==> label@[p] == label@[q],
            decreases n - j,
        {
            if linked_exec(keys, &agree, i, j) {
                let li = label[i];
                let lj = label[j];
                if li != lj {
                    let ghost before = label@;
                    relabel(&mut label, lj, li);
                    proof {
                        lemma_linked_same_group(ks, i as int, j as int);
                        assert forall|x: int| 0 <= x < label@.len() implies #[trigger] label@[x] < label@.len() && label@[label@[x] as int] == label@[x] by {
                            assert(before[before[x] as int] == before[x]);
                            if before[x] == lj {
                                assert(before[li as int] == li);
                            }
                        }
                        assert forall|a: int, b: int| 0 <= a < label@.len() && 0 <= b < label@.len() && #[trigger] label@[a] == #[trigger] label@[b] implies same_group(ks, a, b) by {
                            assert(before[i as int] == li);
                            assert(before[j as int] == lj);
                            if before[a] == lj && before[b] != lj {
                                // a sits with j, b with i
                                assert(same_group(ks, a, j as int));
                                assert(same_group(ks, b, i as int));
                                lemma_same_group_symmetric(ks, b, i as int);
                                lemma_same_group_symmetric(ks, i as int, j as int);
                                lemma_same_group_trans(ks, a, j as int, i as int);
                                lemma_same_group_trans(ks, a, i as int, b);
                            } else if before[a] != lj && before[b] == lj {
                                assert(same_group(ks, a, i as int));
                                assert(same_group(ks, j as int, b));
                                lemma_same_group_trans(ks, a, i as int, j as int);
                                lemma_same_group_trans(ks, a, j as int, b);
                            } else {
                                assert(before[a] == before[b]);
                            }
                        }
                        assert forall|p: int, q: int| 0 <= p < n && 0 <= q < n && visited(p, q, i as int, j + 1) && #[trigger] linked(ks, p, q) implies label@[p] == label@[q] by {
                            if visited(p, q, i as int, j as int) {
                                assert(before[p] == before[q]);
                            } else {
                                assert(p == i && q == j);
                            }
                        }
                    }
                } else {
                    proof {
                        assert forall|p: int, q: int| 0 <= p < n && 0 <= q < n && visited(p, q, i as int, j + 1) && #[trigger] linked(ks, p, q) implies label@[p] == label@[q] by {
                            if !visited(p, q, i as int, j as int) {
                                assert(p == i && q == j);
                            }
                        }
                    }
                }
            } else {
                proof {
                    assert forall|p: int, q: int| 0 <= p < n && 0 <= q < n && visited(p, q, i as int, j + 1) && #[trigger] linked(ks, p, q) implies label@[p] == label@[q] by {
                        if !visited(p, q, i as int, j as int) {
                            assert(p == i && q == j);
                        }
                    }
                }
            }
            j = j + 1;
        }
        proof {
            assert forall|p: int, q: int| 0 <= p < n && 0 <= q < n && visited(p, q, i + 1, 0) && #[trigger] linked(ks, p, q) implies label@[p] == label@[q] by {
                assert(visited(p, q, i as int, n as int));
            }
        }
        i = i + 1;
    }
    proof {
        let f = |x: int| if 0 <= x < n {
            label@[x] as int
        } else {
            0int
        };
        assert forall|p: int, q: int| 0 <= p < ks.len() && 0 <= q < ks.len() && #[trigger] linked(ks, p, q) implies f(p) == f(q) by {
            assert(visited(p, q, n as int, 0));
        }
        assert(respects(ks, f));
        assert forall|a: int, b: int| 0 <= a < label@.len() && 0 <= b < label@.len() implies (#[trigger] label@[a] == #[trigger] label@[b]) == same_group(ks, a, b) by {
            if same_group(ks, a, b) {
                assert(f(a) == f(b));
            }
        }
    }
    label
}

fn all_keys_exec(assets: &Vec<AssetRecord>) -> (keys: Vec<Keys>)
    ensures
        keys_view(keys@) == all_keys(assets@),
{
    let mut keys: Vec<Keys> = Vec::new();
    let mut i: usize = 0;
    while i < assets.len()
        invariant
            i <= assets.len(),
            keys@.len() == i,
            keys_view(keys@) == all_keys(assets@.take(i as int)),
        decreases assets.len() - i,
    {
        let ghost prior = keys@;
        keys.push(keys_exec(&assets[i]));
        proof {
            assert(keys@ == prior.push(keys@[i as int]));
            assert(assets@.take(i + 1) == assets@.take(i as int).push(assets@[i as int]));
            assert(keys_view(keys@) =~= keys_view(prior).push(keys@[i as int]@));
            assert(all_keys(assets@.take(i + 1)) =~= all_keys(assets@.take(i as int)).push(keys_of(assets@[i as int])));
        }
        i = i + 1;
    }
    assert(assets@.take(assets.len() as int) =~= assets@);
    keys
}

spec fn as_ints(v: Seq<usize>) -> Seq<int> {
    v.map_values(|x: usize| x as int)
}

/// The members of the group labelled like `r`, in order.
fn members_exec(label: &Vec<usize>, r: usize, Ghost(ks): Ghost<Seq<AssetKeys>>) -> (m: Vec<usize>)
    requires
        r < label.len(),
        label.len() == ks.len(),
        forall|a: int, b: int| 0 <= a < label@.len() && 0 <= b < label@.len() ==> (#[trigger] label@[a] == #[trigger] label@[b]) == same_group(ks, a, b),
    ensures
        as_ints(m@) == members(ks, r as int),
        forall|t: int| 0 <= t < m@.len() ==> #[trigger] m@[t] < label@.len(),
{
    let mut m: Vec<usize> = Vec::new();
    let mut y: usize = 0;
    while y < label.len()
        invariant
            r < label.len(),
            label.len() == ks.len(),
            forall|a: int, b: int| 0 <= a < label@.len() && 0 <= b < label@.len() ==> (#[trigger] label@[a] == #[trigger] label@[b]) == same_group(ks, a, b),
            y <= label.len(),
            as_ints(m@) == members_below(ks, r as int, y as int),
            forall|t: int| 0 <= t < m@.len() ==> #[trigger] m@[t] < y,
        decreases label.len() - y,
    {
        if label[r] == label[y] {
            m.push(y);
            assert(as_ints(m@) =~= members_below(ks, r as int, y as int).push(y as int));
        }
        y = y + 1;
    }
    m
}

/// Whether a member other than member `x` carries `x`'s ISIN.
fn has_twin_exec(keys: &Vec<Keys>, m: &Vec<usize>, x: usize) -> (r: bool)
    requires
        x < keys.len(),
        forall|t: int| 0 <= t < m@.len() ==> #[trigger] m@[t] < keys@.len(),
    ensures
        r == has_twin(keys_view(keys@), as_ints(m@), x as int),
{
    let ghost ks = keys_view(keys@);
    let ghost mi = as_ints(m@);
    let mut t: usize = 0;
    while t < m.len()
        invariant
            x < keys.len(),
            forall|q: int| 0 <= q < m@.len() ==> #[trigger] m@[q] < keys@.len(),
            ks == keys_view(keys@),
            mi == as_ints(m@),
            t <= m.len(),
            forall|q: int| 0 <= q < t ==> !(mi[q] != x && #[trigger] ks[mi[q]].0 == ks[x as int].0),
        decreases m.len() - t,
    {
        let y = m[t];
        if y != x && opt_str_eq(&keys[y].isin, &keys[x].isin) {
            assert(mi[t as int] != x && ks[mi[t as int]].0 == ks[x as int].0);
            return true;
        }
        t = t + 1;
    }
    false
}

fn contains_exec(v: &Vec<String>, s: &str) -> (r: bool)
    ensures
        r == strings_view(v@).contains(s@),
{
    let mut i: usize = 0;
    while i < v.len()
        invariant
            i <= v.len(),
            forall|q: int| 0 <= q < i ==> strings_view(v@)[q] != s@,
        decreases v.len() - i,
    {
        if str_eq(v[i].as_str(), s) {
            assert(strings_view(v@)[i as int] == s@);
            return true;
        }
        i = i + 1;
    }
    false
}

fn shared_isins_exec(keys: &Vec<Keys>, m: &Vec<usize>) -> (r: Vec<String>)
    requires
        forall|t: int| 0 <= t < m@.len() ==> #[trigger] m@[t] < keys@.len(),
    ensures
        strings_view(r@) == shared_isins(keys_view(keys@), as_ints(m@)),
{
    let ghost ks = keys_view(keys@);
    let ghost mi = as_ints(m@);
    let mut acc: Vec<String> = Vec::new();
    let mut k: usize = 0;
    while k < m.len()
        invariant
            forall|t: int| 0 <= t < m@.len() ==> #[trigger] m@[t] < keys@.len(),
            ks == keys_view(keys@),
            mi == as_ints(m@),
            k <= m.len(),
            strings_view(acc@) == shared_below(ks, mi, k as int),
        decreases m.len() - k,
    {
        let x = m[k];
        assert(mi[k as int] == x as int);
        match &keys[x].isin {
            Some(s) => {
                if has_twin_exec(keys, m, x) && !contains_exec(&acc, s.as_str()) {
                    acc.push(owned(s.as_str()));
                    assert(strings_view(acc@) =~= shared_below(ks, mi, k as int).push(s@));
                }
            },
            None => {},
        }
        k = k + 1;
    }
    sort_strings(acc)
}

fn ambiguous_exec(keys: &Vec<Keys>, m: &Vec<usize>) -> (r: bool)
    requires
        forall|t: int| 0 <= t < m@.len() ==> #[trigger] m@[t] < keys@.len(),
    ensures
        r == ambiguous(keys_view(keys@), as_ints(m@)),
{
    let ghost ks = keys_view(keys@);
    let ghost mi = as_ints(m@);
    let mut t: usize = 0;
    while t < m.len()
        invariant
            forall|q: int| 0 <= q < m@.len() ==> #[trigger] m@[q] < keys@.len(),
            ks == keys_view(keys@),
            mi == as_ints(m@),
            t <= m.len(),
            forall|a: int, b: int| 0 <= a < t && a < b < mi.len() ==> !((#[trigger] ks[mi[a]]).2 is Some && ks[mi[a]].2 == (#[trigger] ks[mi[b]]).2 && (
            ks[mi[a]].1 is None || ks[mi[b]].1 is None)),
        decreases m.len() - t,
    {
        let mut u: usize = t + 1;
        while u < m.len()
            invariant
                forall|q: int| 0 <= q < m@.len() ==> #[trigger] m@[q] < keys@.len(),
                ks == keys_view(keys@),
                mi == as_ints(m@),
                t < m.len(),
                t < u <= m.len(),
                forall|a: int, b: int| 0 <= a < t && a < b < mi.len() ==> !((#[trigger] ks[mi[a]]).2 is Some && ks[mi[a]].2 == (#[trigger] ks[mi[b]]).2 && (
                ks[mi[a]].1 is None || ks[mi[b]].1 is None)),
                forall|b: int| t < b < u ==> !(ks[mi[t as int]].2 is Some && ks[mi[t as int]].2 == (#[trigger] ks[mi[b]]).2 && (
                ks[mi[t as int]].1 is None || ks[mi[b]].1 is None)),
            decreases m.len() - u,
        {
            let a = &keys[m[t]];
            let b = &keys[m[u]];
            if a.sym.is_some() && sym_eq(&a.sym, &b.sym) && (a.mic.is_none() || b.mic.is_none()) {
                assert(ks[mi[t as int]].2 == ks[mi[u as int]].2);
                return true;
            }
            u = u + 1;
        }
        t = t + 1;
    }
    false
}

fn reasons_exec(keys: &Vec<Keys>, m: &Vec<usize>) -> (r: Vec<DuplicateReason>)
    requires
        forall|t: int| 0 <= t < m@.len() ==> #[trigger] m@[t] < keys@.len(),
    ensures
        reason_views(r@) == reasons(keys_view(keys@), as_ints(m@)),
{
    let isins = shared_isins_exec(keys, m);
    let ghost sv = strings_view(isins@);
    let mut out: Vec<DuplicateReason> = Vec::new();
    let mut i: usize = 0;
    while i < isins.len()
        invariant
            sv == strings_view(isins@),
            i <= isins.len(),
            out@.len() == i,
            reason_views(out@) == sv.take(i as int).map_values(|s: Seq<char>| Some(s)),
        decreases isins.len() - i,
    {
        let ghost prior = out@;
        out.push(DuplicateReason::SharedIsin { isin: owned(isins[i].as_str()) });
        assert(out@ == prior.push(out@[i as int]));
        assert(reason_views(out@) =~= reason_views(prior).push(Some(sv[i as int])));
        assert(reason_views(out@) =~= sv.take(i + 1).map_values(|s: Seq<char>| Some(s)));
        i = i + 1;
    }
    assert(sv.take(isins.len() as int) =~= sv);
    if ambiguous_exec(keys, m) {
        let ghost before = reason_views(out@);
        out.push(DuplicateReason::AmbiguousExchange);
        assert(reason_views(out@) =~= before + seq![None]);
    } else {
        assert(reason_views(out@) =~= reason_views(out@) + Seq::<ReasonView>::empty());
    }
    out
}

/// The ids of the assets at the given positions, in that order.
fn ids_exec(assets: &Vec<AssetRecord>, m: &Vec<usize>) -> (r: Vec<String>)
    requires
        forall|t: int| 0 <= t < m@.len() ==> #[trigger] m@[t] < assets@.len(),
    ensures
        strings_view(r@) == ids_at(assets@, as_ints(m@)),
{
    let mut out: Vec<String> = Vec::new();
    let mut t: usize = 0;
    while t < m.len()
        invariant
            forall|q: int| 0 <= q < m@.len() ==> #[trigger] m@[q] < assets@.len(),
            t <= m.len(),
            out@.len() == t,
            forall|q: int| 0 <= q < t ==> (#[trigger] out@[q])@ == assets@[m@[q] as int].id@,
        decreases m.len() - t,
    {
        out.push(owned(assets[m[t]].id.as_str()));
        t = t + 1;
    }
    assert(strings_view(out@) =~= ids_at(assets@, as_ints(m@)));
    out
}

/// Finds groups of assets that probably stand for the same instrument.
/// Deterministic: ids within a group and the groups themselves come out
/// sorted; nothing flagged gives an empty list.
pub fn find_duplicate_asset_groups(assets: &Vec<AssetRecord>) -> (r: Vec<DuplicateAssetGroup>)
    ensures
        group_views(r@) == duplicate_groups(assets@),
{
    let keys = all_keys_exec(assets);
    let ghost ks = keys_view(keys@);
    let label = group_labels(&keys);
    let n = assets.len();
    let mut out: Vec<DuplicateAssetGroup> = Vec::new();
    let mut r: usize = 0;
    assert(group_views(out@) =~= isort(groups_below(assets@, 0), by_ids()));
    while r < n
        invariant
            n == assets.len(),
            ks == keys_view(keys@),
            ks == all_keys(assets@),
            label_ok(ks, label@),
            forall|a: int, b: int| 0 <= a < label@.len() && 0 <= b < label@.len() ==> (#[trigger] label@[a] == #[trigger] label@[b]) == same_group(ks, a, b),
            r <= n,
            group_views(out@) == isort(groups_below(assets@, r as int), by_ids()),
        decreases n - r,
    {
        let mut lead = true;
        let mut y: usize = 0;
        while y < r
            invariant
                r < n,
                n == label.len(),
                forall|a: int, b: int| 0 <= a < label@.len() && 0 <= b < label@.len() ==> (#[trigger] label@[a] == #[trigger] label@[b]) == same_group(ks, a, b),
                y <= r,
                lead == (forall|b: int| 0 <= b < y ==> !#[trigger] same_group(ks, r as int, b)),
            decreases r - y,
        {
            if label[y] == label[r] {
                lead = false;
            }
            y = y + 1;
        }
        let ghost prior = groups_below(assets@, r as int);
        assert(groups_below(assets@, r + 1) == if reported(ks, r as int) {
            prior.push(group_of(assets@, r as int))
        } else {
            prior
        });
        if lead {
            let m = members_exec(&label, r, Ghost(ks));
            if m.len() >= 2 {
                let reasons = reasons_exec(&keys, &m);
                if reasons.len() > 0 {
                    let ids = ids_exec(assets, &m);
                    let asset_ids = sort_strings(ids);
                    let g = DuplicateAssetGroup { asset_ids, reasons };
                    assert(g@ == group_of(assets@, r as int));
                    let mut k: usize = out.len();
                    while k > 0 && strs_less(&g.asset_ids, &out[k - 1].asset_ids)
                        invariant
                            k <= out.len(),
                            forall|t: int| k <= t < out.len() ==> (by_ids())(g@, #[trigger] group_views(out@)[t]),
                        decreases k,
                    {
                        k = k - 1;
                    }
                    let ghost before = group_views(out@);
                    let ghost gv = g@;
                    proof {
                        lemma_ins_at(before, g@, by_ids(), k as int);
                        assert(prior.push(g@).drop_last() =~= prior);
                    }
                    out.insert(k, g);
                    assert(group_views(out@) =~= before.take(k as int).push(gv) + before.skip(k as int));
                }
            }
        }
        r = r + 1;
    }
    out
}

/// Where an asset falls when no asset carries an ISIN: its key and the
/// exchange its group settles on (its own, or the single exchange of its
/// key); an asset without a key stands alone.
pub ghost enum Bucket {
    Alone(int),
    Keyed(SymKey, Option<Seq<char>>),
}

pub open spec fn bucket(ks: Seq<AssetKeys>, x: int) -> Bucket {
    match ks[x].2 {
        None => Bucket::Alone(x),
        Some(key) => match ks[x].1 {
            Some(m) => Bucket::Keyed(key, Some(m)),
            None => if exists|y: int| 0 <= y < ks.len() && (#[trigger] ks[y]).2 == Some(key) && ks[y].1 is Some
                && exchanges_agree(ks, key, ks[y].1) {
                let y = choose|y: int| 0 <= y < ks.len() && (#[trigger] ks[y]).2 == Some(key) && ks[y].1 is Some
                    && exchanges_agree(ks, key, ks[y].1);
                Bucket::Keyed(key, ks[y].1)
            } else {
                Bucket::Keyed(key, None)
            },
        },
    }
}

pub open spec fn bucket_label(ks: Seq<AssetKeys>) -> spec_fn(int) -> int {
    |x: int| choose|y: int| bucket(ks, y) == bucket(ks, x)
}

proof fn lemma_bucket_label(ks: Seq<AssetKeys>, a: int, b: int)
    ensures
        (bucket_label(ks))(a) == (bucket_label(ks))(b) <==> bucket(ks, a) == bucket(ks, b),
{
    let f = bucket_label(ks);
    assert(bucket(ks, a) == bucket(ks, a));
    assert(bucket(ks, b) == bucket(ks, b));
    assert(bucket(ks, f(a)) == bucket(ks, a));
    assert(bucket(ks, f(b)) == bucket(ks, b));
}

proof fn lemma_buckets_respect_links(ks: Seq<AssetKeys>)
    requires
        forall|x: int| 0 <= x < ks.len() ==> (#[trigger] ks[x]).0 is None,
    ensures
        respects(ks, bucket_label(ks)),
{
    assert forall|i: int, j: int| 0 <= i < ks.len() && 0 <= j < ks.len() && #[trigger] linked(ks, i, j) implies (bucket_label(
        ks,
    ))(i) == (bucket_label(ks))(j) by {
        assert(ks[i].0 is None);
        let key = ks[i].2->0;
        if ks[i].1 == ks[j].1 {
            if ks[i].1 is Some {
                assert(bucket(ks, i) == bucket(ks, j));
            } else {
                assert(bucket(ks, i) == bucket(ks, j));
            }
        } else if ks[i].1 is None {
            assert(exchanges_agree(ks, key, ks[j].1));
            assert(ks[j].2 == Some(key) && ks[j].1 is Some);
            let y = choose|y: int| 0 <= y < ks.len() && (#[trigger] ks[y]).2 == Some(key) && ks[y].1 is Some
                && exchanges_agree(ks, key, ks[y].1);
            assert(ks[y].1 == ks[j].1);
            assert(bucket(ks, i) == bucket(ks, j));
        } else {
            assert(ks[j].1 is None);
            assert(exchanges_agree(ks, key, ks[i].1));
            assert(ks[i].2 == Some(key) && ks[i].1 is Some);
            let y = choose|y: int| 0 <= y < ks.len() && (#[trigger] ks[y]).2 == Some(key) && ks[y].1 is Some
                && exchanges_agree(ks, key, ks[y].1);
            assert(ks[y].1 == ks[i].1);
            assert(bucket(ks, i) == bucket(ks, j));
        }
        lemma_bucket_label(ks, i, j);
    }
}

/// When no asset carries an ISIN, two different assets fall in one group
/// only if they share instrument type, symbol and quote currency, and,
/// when both have an exchange, the same exchange: cross-listings on
/// different exchanges and listings in different currencies stay apart.
pub proof fn lemma_groups_keep_exchanges_apart(assets: Seq<AssetRecord>, a: int, b: int)
    requires
        0 <= a < assets.len(),
        0 <= b < assets.len(),
        a != b,
        forall|x: int| 0 <= x < assets.len() ==> (#[trigger] all_keys(assets)[x]).0 is None,
        same_group(all_keys(assets), a, b),
    ensures
        all_keys(assets)[a].2 is Some,
        all_keys(assets)[a].2 == all_keys(assets)[b].2,
        all_keys(assets)[a].1 is Some && all_keys(assets)[b].1 is Some ==> all_keys(assets)[a].1 == all_keys(assets)[b].1,
{
    let ks = all_keys(assets);
    lemma_buckets_respect_links(ks);
    assert((bucket_label(ks))(a) == (bucket_label(ks))(b));
    lemma_bucket_label(ks, a, b);
}

proof fn lemma_groups_below_reported(assets: Seq<AssetRecord>, k: int)
    ensures
        forall|g: GroupView| #[trigger] groups_below(assets, k).contains(g) ==> exists|r: int|
            0 <= r < k && reported(all_keys(assets), r) && g == group_of(assets, r),
    decreases k,
{
    if k > 0 {
        lemma_groups_below_reported(assets, k - 1);
        let prev = groups_below(assets, k - 1);
        assert forall|g: GroupView| #[trigger] groups_below(assets, k).contains(g) implies exists|r: int|
            0 <= r < k && reported(all_keys(assets), r) && g == group_of(assets, r) by {
            if prev.contains(g) {
                let r = choose|r: int| 0 <= r < k - 1 && reported(all_keys(assets), r) && g == group_of(assets, r);
            } else {
                assert(g == group_of(assets, k - 1));
            }
        }
    }
}

/// Every reported group holds two or more assets and at least one reason:
/// a lone asset is never a group, and no group is reported unexplained.
pub proof fn lemma_reported_groups_are_explained(assets: Seq<AssetRecord>, g: GroupView)
    requires
        duplicate_groups(assets).contains(g),
    ensures
        g.0.len() >= 2,
        g.1.len() > 0,
{
    let raw = groups_below(assets, assets.len() as int);
    lemma_isort_elements(raw, by_ids());
    assert(raw.contains(g));
    lemma_groups_below_reported(assets, assets.len() as int);
    let r = choose|r: int| 0 <= r < assets.len() && reported(all_keys(assets), r) && g == group_of(assets, r);
    let ks = all_keys(assets);
    lemma_isort_elements(ids_at(assets, members(ks, r)), str_lt_fn());
}

/// The output is sorted: groups by their ids, and the ids within each group.
pub proof fn lemma_duplicate_groups_sorted(assets: Seq<AssetRecord>)
    ensures
        sorted_by(duplicate_groups(assets), by_ids()),
        forall|g: GroupView| #[trigger] duplicate_groups(assets).contains(g) ==> sorted_by(g.0, str_lt_fn()),
{
    lemma_string_orders_total();
    lemma_total_is_weak(lex_fn(str_lt_fn()));
    lemma_total_is_weak(str_lt_fn());
    assert(lex_fn(str_lt_fn()) =~= |a: Seq<Seq<char>>, b: Seq<Seq<char>>| strs_lt(a, b));
    assert forall|a: GroupView, b: GroupView, c: GroupView| (by_ids())(a, c) implies #[trigger] (by_ids())(a, b) || #[trigger] (by_ids())(b, c) by {
        let lt = lex_fn(str_lt_fn());
        assert(lt(a.0, c.0));
        assert(lt(a.0, b.0) || lt(b.0, c.0));
        assert(lt(a.0, b.0) == strs_lt(a.0, b.0));
        assert(lt(b.0, c.0) == strs_lt(b.0, c.0));
    }
    assert forall|a: GroupView, b: GroupView, c: GroupView| #[trigger] (by_ids())(a, b) && #[trigger] (by_ids())(b, c) implies (by_ids())(a, c) by {
        assert((lex_fn(str_lt_fn()))(a.0, b.0));
        assert((lex_fn(str_lt_fn()))(b.0, c.0));
    }
    assert forall|a: GroupView| !#[trigger] (by_ids())(a, a) by {
        assert(!(lex_fn(str_lt_fn()))(a.0, a.0));
    }
    lemma_isort_sorted(groups_below(assets, assets.len() as int), by_ids());
    assert forall|g: GroupView| #[trigger] duplicate_groups(assets).contains(g) implies sorted_by(g.0, str_lt_fn()) by {
        let raw = groups_below(assets, assets.len() as int);
        lemma_isort_elements(raw, by_ids());
        lemma_groups_below_reported(assets, assets.len() as int);
        let r = choose|r: int| 0 <= r < assets.len() && reported(all_keys(assets), r) && g == group_of(assets, r);
        lemma_isort_sorted(ids_at(assets, members(all_keys(assets), r)), str_lt_fn());
    }
}

proof fn lemma_members_below(ks: Seq<AssetKeys>, r: int, k: int, x: int)
    requires
        members_below(ks, r, k).contains(x),
    ensures
        0 <= x < k,
        same_group(ks, r, x),
    decreases k,
{
    if k > 0 {
        let m = members_below(ks, r, k - 1);
        if same_group(ks, r, k - 1) && x == k - 1 {
        } else {
            if same_group(ks, r, k - 1) {
                let mp = m.push(k - 1);
                let i = choose|i: int| 0 <= i < mp.len() && #[trigger] mp[i] == x;
                assert(i < m.len());
                assert(m[i] == x);
            }
            assert(m.contains(x));
            lemma_members_below(ks, r, k - 1, x);
        }
    }
}

/// An id listed in the group led by `r` is the id of one of its members.
proof fn lemma_group_id_member(assets: Seq<AssetRecord>, r: int, id: Seq<char>) -> (x: int)
    requires
        group_of(assets, r).0.contains(id),
    ensures
        0 <= x < assets.len(),
        assets[x].id@ == id,
        same_group(all_keys(assets), r, x),
{
    let ks = all_keys(assets);
    let m = members(ks, r);
    lemma_isort_elements(ids_at(assets, m), str_lt_fn());
    let t = choose|t: int| 0 <= t < ids_at(assets, m).len() && ids_at(assets, m)[t] == id;
    assert(m.contains(m[t]));
    lemma_members_below(ks, r, ks.len() as int, m[t]);
    m[t]
}

/// Groups led by two different leaders list no id in common, when no two
/// assets share an id.
proof fn lemma_leaders_disjoint(assets: Seq<AssetRecord>, r1: int, r2: int, id: Seq<char>)
    requires
        forall|i: int, j: int| 0 <= i < j < assets.len() ==> (#[trigger] assets[i]).id@ != (#[trigger] assets[j]).id@,
        reported(all_keys(assets), r1),
        reported(all_keys(assets), r2),
        0 <= r1 < r2,
        group_of(assets, r1).0.contains(id),
    ensures
        !group_of(assets, r2).0.contains(id),
{
    let ks = all_keys(assets);
    if group_of(assets, r2).0.contains(id) {
        let x1 = lemma_group_id_member(assets, r1, id);
        let x2 = lemma_group_id_member(assets, r2, id);
        if x1 < x2 {
            assert(assets[x1].id@ != assets[x2].id@);
        } else if x2 < x1 {
            assert(assets[x2].id@ != assets[x1].id@);
        }
        assert(x1 == x2);
        lemma_same_group_symmetric(ks, r1, x1);
        lemma_same_group_trans(ks, r2, x1, r1);
        assert(!same_group(ks, r2, r1));
    }
}

proof fn lemma_group_ids_nonempty(assets: Seq<AssetRecord>, r: int)
    requires
        reported(all_keys(assets), r),
    ensures
        group_of(assets, r).0.len() >= 2,
{
    lemma_isort_elements(ids_at(assets, members(all_keys(assets), r)), str_lt_fn());
}

/// Two different reported groups list no id in common.
proof fn lemma_raw_groups_disjoint(assets: Seq<AssetRecord>, k: int, g: GroupView, h: GroupView, id: Seq<char>)
    requires
        forall|i: int, j: int| 0 <= i < j < assets.len() ==> (#[trigger] assets[i]).id@ != (#[trigger] assets[j]).id@,
        groups_below(assets, k).contains(g),
        groups_below(assets, k).contains(h),
        g != h,
        g.0.contains(id),
    ensures
        !h.0.contains(id),
{
    lemma_groups_below_reported(assets, k);
    let r1 = choose|r: int| 0 <= r < k && reported(all_keys(assets), r) && g == group_of(assets, r);
    let r2 = choose|r: int| 0 <= r < k && reported(all_keys(assets), r) && h == group_of(assets, r);
    if r1 < r2 {
        lemma_leaders_disjoint(assets, r1, r2, id);
    } else if r2 < r1 {
        if h.0.contains(id) {
            lemma_leaders_disjoint(assets, r2, r1, id);
        }
    }
}

proof fn lemma_raw_groups_unique(assets: Seq<AssetRecord>, k: int)
    requires
        forall|i: int, j: int| 0 <= i < j < assets.len() ==> (#[trigger] assets[i]).id@ != (#[trigger] assets[j]).id@,
    ensures
        groups_below(assets, k).no_duplicates(),
    decreases k,
{
    if k > 0 {
        lemma_raw_groups_unique(assets, k - 1);
        let prev = groups_below(assets, k - 1);
        if reported(all_keys(assets), k - 1) {
            let g = group_of(assets, k - 1);
            lemma_group_ids_nonempty(assets, k - 1);
            if prev.contains(g) {
                lemma_groups_below_reported(assets, k - 1);
                let r = choose|r: int| 0 <= r < k - 1 && reported(all_keys(assets), r) && g == group_of(assets, r);
                lemma_leaders_disjoint(assets, r, k - 1, g.0[0]);
                assert(g.0.contains(g.0[0]));
            }
            let cur = prev.push(g);
            assert forall|i: int, j: int| 0 <= i < cur.len() && 0 <= j < cur.len() && i != j implies cur[i] != cur[j] by {
                if i == prev.len() {
                    assert(prev.contains(cur[j]));
                } else if j == prev.len() {
                    assert(prev.contains(cur[i]));
                }
            }
        }
    }
}

/// When no two assets share an id, the reported groups are disjoint, come
/// out in strictly ascending order of their ids, and list only ids of the
/// given assets.
pub proof fn lemma_duplicate_groups_disjoint(assets: Seq<AssetRecord>)
    requires
        forall|i: int, j: int| 0 <= i < j < assets.len() ==> (#[trigger] assets[i]).id@ != (#[trigger] assets[j]).id@,
    ensures
        forall|i: int, j: int, id: Seq<char>|
            #![trigger duplicate_groups(assets)[i].0.contains(id), duplicate_groups(assets)[j].0.contains(id)]
            0 <= i < j < duplicate_groups(assets).len() && duplicate_groups(assets)[i].0.contains(id)
                ==> !duplicate_groups(assets)[j].0.contains(id),
        forall|i: int, j: int|
            0 <= i < j < duplicate_groups(assets).len() ==> strs_lt(
                (#[trigger] duplicate_groups(assets)[i]).0,
                (#[trigger] duplicate_groups(assets)[j]).0,
            ),
        forall|g: GroupView, id: Seq<char>| #[trigger] duplicate_groups(assets).contains(g) && #[trigger] g.0.contains(id)
            ==> exists|x: int| 0 <= x < assets.len() && assets[x].id@ == id,
{
    let n = assets.len() as int;
    let raw = groups_below(assets, n);
    let out = duplicate_groups(assets);
    lemma_isort_elements(raw, by_ids());
    lemma_isort_keeps(raw, by_ids());
    lemma_raw_groups_unique(assets, n);
    lemma_duplicate_groups_sorted(assets);
    lemma_string_orders_total();
    raw.unique_seq_to_set();
    assert(out.to_set() =~= raw.to_set()) by {
        assert forall|g: GroupView| out.to_set().contains(g) <==> raw.to_set().contains(g) by {
            if raw.contains(g) {
                assert(out.contains(g));
            }
        }
    }
    out.lemma_no_dup_set_cardinality();
    lemma_groups_below_reported(assets, n);
    assert forall|i: int, j: int, id: Seq<char>|
        #![trigger out[i].0.contains(id), out[j].0.contains(id)]
        0 <= i < j < out.len() && out[i].0.contains(id) implies !out[j].0.contains(id) by {
        assert(out.contains(out[i]));
        assert(out.contains(out[j]));
        assert(raw.contains(out[i]));
        assert(raw.contains(out[j]));
        lemma_raw_groups_disjoint(assets, n, out[i], out[j], id);
    }
    assert forall|i: int, j: int| 0 <= i < j < out.len() implies strs_lt((#[trigger] out[i]).0, (#[trigger] out[j]).0) by {
        assert(out.contains(out[i]));
        assert(raw.contains(out[i]));
        let r = choose|r: int| 0 <= r < n && reported(all_keys(assets), r) && out[i] == group_of(assets, r);
        lemma_group_ids_nonempty(assets, r);
        let id = out[i].0[0];
        assert(out[i].0.contains(id));
        assert(out.contains(out[j]));
        assert(raw.contains(out[j]));
        lemma_raw_groups_disjoint(assets, n, out[i], out[j], id);
        assert(out[i].0 != out[j].0);
        assert(!(by_ids())(out[j], out[i]));
        let lt = lex_fn(str_lt_fn());
        assert(lt(out[i].0, out[j].0) || lt(out[j].0, out[i].0));
        assert(lt(out[j].0, out[i].0) == strs_lt(out[j].0, out[i].0));
        assert(lt(out[i].0, out[j].0) == strs_lt(out[i].0, out[j].0));
    }
    assert forall|g: GroupView, id: Seq<char>| #[trigger] out.contains(g) && #[trigger] g.0.contains(id)
        implies exists|x: int| 0 <= x < assets.len() && assets[x].id@ == id by {
        assert(raw.contains(g));
        let r = choose|r: int| 0 <= r < n && reported(all_keys(assets), r) && g == group_of(assets, r);
        let x = lemma_group_id_member(assets, r, id);
    }
}

// ─── independence from the order of the assets ─────────────────────────

/// `b` lists the rows of `a` in another order: row `i` of `b` is row
/// `perm[i]` of `a`, and `inv` undoes `perm`.
pub open spec fn reorders<T>(b: Seq<T>, a: Seq<T>, perm: Seq<int>, inv: Seq<int>) -> bool {
    &&& b.len() == a.len() && perm.len() == a.len() && inv.len() == a.len()
    &&& forall|i: int| 0 <= i < b.len() ==> 0 <= #[trigger] perm[i] < a.len() && b[i] == a[perm[i]] && inv[perm[i]] == i
    &&& forall|k: int| 0 <= k < a.len() ==> 0 <= #[trigger] inv[k] < b.len() && perm[inv[k]] == k
}

proof fn lemma_reorders_back<T>(b: Seq<T>, a: Seq<T>, perm: Seq<int>, inv: Seq<int>)
    requires
        reorders(b, a, perm, inv),
    ensures
        reorders(a, b, inv, perm),
{
    assert forall|k: int| 0 <= k < a.len() implies 0 <= #[trigger] inv[k] < b.len() && a[k] == b[inv[k]] && perm[inv[k]]
        == k by {
        assert(b[inv[k]] == a[perm[inv[k]]]);
    }
}

proof fn lemma_keys_reordered(b: Seq<AssetRecord>, a: Seq<AssetRecord>, perm: Seq<int>, inv: Seq<int>)
    requires
        reorders(b, a, perm, inv),
    ensures
        reorders(all_keys(b), all_keys(a), perm, inv),
{
}

proof fn lemma_agree_reordered(kb: Seq<AssetKeys>, ka: Seq<AssetKeys>, perm: Seq<int>, inv: Seq<int>, key: SymKey, m: Option<Seq<char>>)
    requires
        reorders(kb, ka, perm, inv),
        exchanges_agree(ka, key, m),
    ensures
        exchanges_agree(kb, key, m),
{
    assert forall|k: int| 0 <= k < kb.len() && (#[trigger] kb[k]).2 == Some(key) && kb[k].1 is Some implies kb[k].1 == m by {
        assert(kb[k] == ka[perm[k]]);
    }
}

proof fn lemma_linked_reordered(kb: Seq<AssetKeys>, ka: Seq<AssetKeys>, perm: Seq<int>, inv: Seq<int>, i: int, j: int)
    requires
        reorders(kb, ka, perm, inv),
        0 <= i < kb.len(),
        0 <= j < kb.len(),
    ensures
        linked(kb, i, j) == linked(ka, perm[i], perm[j]),
{
    lemma_reorders_back(kb, ka, perm, inv);
    assert(kb[i] == ka[perm[i]]);
    assert(kb[j] == ka[perm[j]]);
    let (x, y) = (kb[i], kb[j]);
    if x.2 is Some {
        let key = x.2->0;
        if exchanges_agree(ka, key, y.1) {
            lemma_agree_reordered(kb, ka, perm, inv, key, y.1);
        }
        if exchanges_agree(kb, key, y.1) {
            lemma_agree_reordered(ka, kb, inv, perm, key, y.1);
        }
        if exchanges_agree(ka, key, x.1) {
            lemma_agree_reordered(kb, ka, perm, inv, key, x.1);
        }
        if exchanges_agree(kb, key, x.1) {
            lemma_agree_reordered(ka, kb, inv, perm, key, x.1);
        }
    }
}

/// Grouping in `a` carries over to the reordered rows.
proof fn lemma_group_carried(kb: Seq<AssetKeys>, ka: Seq<AssetKeys>, perm: Seq<int>, inv: Seq<int>, i: int, j: int)
    requires
        reorders(kb, ka, perm, inv),
        0 <= i < kb.len(),
        0 <= j < kb.len(),
        same_group(ka, perm[i], perm[j]),
    ensures
        same_group(kb, i, j),
{
    let n = ka.len() as int;
    assert forall|g: spec_fn(int) -> int| #[trigger] respects(kb, g) implies g(i) == g(j) by {
        let f = |x: int| if 0 <= x < n { g(inv[x]) } else { 0 };
        assert forall|x: int, y: int| 0 <= x < ka.len() && 0 <= y < ka.len() && #[trigger] linked(ka, x, y) implies f(x) == f(y) by {
            lemma_linked_reordered(kb, ka, perm, inv, inv[x], inv[y]);
            assert(linked(kb, inv[x], inv[y]));
        }
        assert(respects(ka, f));
        assert(f(perm[i]) == f(perm[j]));
    }
}

/// Two rows of the reordered list group together exactly when their rows
/// in `a` do.
proof fn lemma_group_reordered(kb: Seq<AssetKeys>, ka: Seq<AssetKeys>, perm: Seq<int>, inv: Seq<int>, i: int, j: int)
    requires
        reorders(kb, ka, perm, inv),
        0 <= i < kb.len(),
        0 <= j < kb.len(),
    ensures
        same_group(kb, i, j) == same_group(ka, perm[i], perm[j]),
{
    lemma_reorders_back(kb, ka, perm, inv);
    if same_group(ka, perm[i], perm[j]) {
        lemma_group_carried(kb, ka, perm, inv, i, j);
    }
    if same_group(kb, i, j) {
        assert(inv[perm[i]] == i && inv[perm[j]] == j);
        lemma_group_carried(ka, kb, inv, perm, perm[i], perm[j]);
    }
}

proof fn lemma_same_group_refl(ks: Seq<AssetKeys>, x: int)
    ensures
        same_group(ks, x, x),
{
    assert forall|f: spec_fn(int) -> int| #[trigger] respects(ks, f) implies f(x) == f(x) by {}
}

proof fn lemma_members_include(ks: Seq<AssetKeys>, r: int, k: int, x: int)
    requires
        0 <= x < k,
        same_group(ks, r, x),
    ensures
        members_below(ks, r, k).contains(x),
    decreases k,
{
    let m = members_below(ks, r, k - 1);
    if x == k - 1 {
        assert(members_below(ks, r, k) == m.push(k - 1));
        assert(m.push(k - 1)[m.len() as int] == x);
    } else {
        lemma_members_include(ks, r, k - 1, x);
        let i = choose|i: int| 0 <= i < m.len() && m[i] == x;
        if same_group(ks, r, k - 1) {
            assert(m.push(k - 1)[i] == x);
        }
    }
}

proof fn lemma_members_increasing(ks: Seq<AssetKeys>, r: int, k: int)
    ensures
        forall|i: int, j: int| 0 <= i < j < members_below(ks, r, k).len() ==> members_below(ks, r, k)[i] < members_below(ks, r, k)[j],
        members_below(ks, r, k).no_duplicates(),
    decreases k,
{
    if k > 0 {
        lemma_members_increasing(ks, r, k - 1);
        let m = members_below(ks, r, k - 1);
        if same_group(ks, r, k - 1) {
            let mp = m.push(k - 1);
            assert forall|i: int| 0 <= i < m.len() implies #[trigger] m[i] < k - 1 by {
                assert(m.contains(m[i]));
                lemma_members_below(ks, r, k - 1, m[i]);
            }
            assert forall|i: int, j: int| 0 <= i < j < mp.len() implies mp[i] < mp[j] by {
                if j == m.len() {
                    assert(m[i] < k - 1);
                }
            }
        }
        let mk = members_below(ks, r, k);
        assert forall|i: int, j: int| 0 <= i < mk.len() && 0 <= j < mk.len() && i != j implies mk[i] != mk[j] by {
            if i < j {
                assert(mk[i] < mk[j]);
            } else {
                assert(mk[j] < mk[i]);
            }
        }
    }
}

/// Rows of one group have the same members.
proof fn lemma_members_of_class(ks: Seq<AssetKeys>, x: int, y: int, k: int)
    requires
        same_group(ks, x, y),
    ensures
        members_below(ks, x, k) == members_below(ks, y, k),
    decreases k,
{
    if k > 0 {
        lemma_members_of_class(ks, x, y, k - 1);
        if same_group(ks, x, k - 1) {
            lemma_same_group_symmetric(ks, x, y);
            lemma_same_group_trans(ks, y, x, k - 1);
        }
        if same_group(ks, y, k - 1) {
            lemma_same_group_trans(ks, x, y, k - 1);
        }
    }
}

/// Two sorted lists without repeats that hold the same elements, all
/// comparable, are the same list.
proof fn lemma_sorted_same<T>(s1: Seq<T>, s2: Seq<T>, lt: spec_fn(T, T) -> bool)
    requires
        forall|a: T| !#[trigger] lt(a, a),
        sorted_by(s1, lt),
        sorted_by(s2, lt),
        s1.no_duplicates(),
        s2.no_duplicates(),
        forall|x: T| s1.contains(x) <==> s2.contains(x),
        forall|x: T, y: T| s1.contains(x) && s1.contains(y) && x != y ==> #[trigger] lt(x, y) || #[trigger] lt(y, x),
    ensures
        s1 == s2,
    decreases s1.len(),
{
    if s1.len() == 0 {
        if s2.len() > 0 {
            assert(s2.contains(s2[0]));
        }
        assert(s1 =~= s2);
    } else {
        assert(s1.contains(s1[0]));
        assert(s2.len() > 0);
        assert(s2.contains(s2[0]));
        if s1[0] != s2[0] {
            let k = choose|k: int| 0 <= k < s1.len() && s1[k] == s2[0];
            let k2 = choose|k: int| 0 <= k < s2.len() && s2[k] == s1[0];
            assert(k > 0 && k2 > 0);
            assert(!lt(s1[k], s1[0]));
            assert(!lt(s2[k2], s2[0]));
            assert(lt(s1[0], s2[0]) || lt(s2[0], s1[0]));
        }
        let t1 = s1.drop_first();
        let t2 = s2.drop_first();
        assert forall|x: T| t1.contains(x) <==> t2.contains(x) by {
            if t1.contains(x) {
                let i = choose|i: int| 0 <= i < t1.len() && t1[i] == x;
                assert(s1[i + 1] == x);
                assert(x != s1[0]);
                assert(s1.contains(x));
                let j = choose|j: int| 0 <= j < s2.len() && s2[j] == x;
                assert(j != 0);
                assert(t2[j - 1] == x);
            }
            if t2.contains(x) {
                let i = choose|i: int| 0 <= i < t2.len() && t2[i] == x;
                assert(s2[i + 1] == x);
                assert(x != s2[0]);
                assert(s2.contains(x));
                let j = choose|j: int| 0 <= j < s1.len() && s1[j] == x;
                assert(j != 0);
                assert(t1[j - 1] == x);
            }
        }
        assert forall|x: T, y: T| t1.contains(x) && t1.contains(y) && x != y implies #[trigger] lt(x, y) || #[trigger] lt(y, x) by {
            let i = choose|i: int| 0 <= i < t1.len() && t1[i] == x;
            let j = choose|j: int| 0 <= j < t1.len() && t1[j] == y;
            assert(s1[i + 1] == x && s1[j + 1] == y);
            assert(s1.contains(x) && s1.contains(y));
        }
        assert(sorted_by(t1, lt)) by {
            assert forall|i: int, j: int| 0 <= i < j < t1.len() implies !lt(#[trigger] t1[j], #[trigger] t1[i]) by {
                assert(t1[i] == s1[i + 1] && t1[j] == s1[j + 1]);
            }
        }
        assert(sorted_by(t2, lt)) by {
            assert forall|i: int, j: int| 0 <= i < j < t2.len() implies !lt(#[trigger] t2[j], #[trigger] t2[i]) by {
                assert(t2[i] == s2[i + 1] && t2[j] == s2[j + 1]);
            }
        }
        lemma_sorted_same(t1, t2, lt);
        assert(s1 =~= s2) by {
            assert forall|i: int| 0 <= i < s1.len() implies s1[i] == s2[i] by {
                if i > 0 {
                    assert(s1[i] == t1[i - 1]);
                    assert(s2[i] == t2[i - 1]);
                }
            }
        }
    }
}

/// Sorting a list without repeats keeps it without repeats, with the
/// same elements.
proof fn lemma_isort_unique<T>(s: Seq<T>, lt: spec_fn(T, T) -> bool)
    requires
        s.no_duplicates(),
    ensures
        isort(s, lt).no_duplicates(),
        forall|x: T| isort(s, lt).contains(x) <==> s.contains(x),
{
    let o = isort(s, lt);
    lemma_isort_elements(s, lt);
    lemma_isort_keeps(s, lt);
    s.unique_seq_to_set();
    assert(o.to_set() =~= s.to_set()) by {
        assert forall|g: T| o.to_set().contains(g) <==> s.to_set().contains(g) by {
            if s.contains(g) {
                assert(o.contains(g));
            }
        }
    }
    o.lemma_no_dup_set_cardinality();
}

/// The members `mb` (positions in the reordered list) are the members `ma`
/// (positions in `a`) moved by `perm`.
pub open spec fn corresponds(mb: Seq<int>, ma: Seq<int>, perm: Seq<int>, inv: Seq<int>, n: int) -> bool {
    &&& forall|x: int| #[trigger] mb.contains(x) ==> 0 <= x < n && ma.contains(perm[x])
    &&& forall|y: int| #[trigger] ma.contains(y) ==> 0 <= y < n && mb.contains(inv[y])
}

proof fn lemma_members_correspond(kb: Seq<AssetKeys>, ka: Seq<AssetKeys>, perm: Seq<int>, inv: Seq<int>, r: int)
    requires
        reorders(kb, ka, perm, inv),
        0 <= r < kb.len(),
    ensures
        corresponds(members(kb, r), members(ka, perm[r]), perm, inv, kb.len() as int),
{
    let n = kb.len() as int;
    let mb = members(kb, r);
    let ma = members(ka, perm[r]);
    assert forall|x: int| #[trigger] mb.contains(x) implies 0 <= x < n && ma.contains(perm[x]) by {
        lemma_members_below(kb, r, n, x);
        lemma_group_reordered(kb, ka, perm, inv, r, x);
        lemma_members_include(ka, perm[r], n, perm[x]);
    }
    assert forall|y: int| #[trigger] ma.contains(y) implies 0 <= y < n && mb.contains(inv[y]) by {
        lemma_members_below(ka, perm[r], n, y);
        lemma_group_reordered(kb, ka, perm, inv, r, inv[y]);
        lemma_members_include(kb, r, n, inv[y]);
    }
}

proof fn lemma_twin_carried(kb: Seq<AssetKeys>, ka: Seq<AssetKeys>, mb: Seq<int>, ma: Seq<int>, perm: Seq<int>, inv: Seq<int>, x: int)
    requires
        reorders(kb, ka, perm, inv),
        corresponds(mb, ma, perm, inv, kb.len() as int),
        mb.contains(x),
        has_twin(kb, mb, x),
    ensures
        has_twin(ka, ma, perm[x]),
{
    let t = choose|t: int| 0 <= t < mb.len() && mb[t] != x && #[trigger] kb[mb[t]].0 == kb[x].0;
    let y = mb[t];
    assert(mb.contains(y));
    assert(ma.contains(perm[y]));
    let u = choose|u: int| 0 <= u < ma.len() && ma[u] == perm[y];
    assert(kb[y] == ka[perm[y]]);
    assert(kb[x] == ka[perm[x]]);
    assert(inv[perm[y]] == y && inv[perm[x]] == x);
    assert(ma[u] != perm[x]);
    assert(ka[ma[u]].0 == ka[perm[x]].0);
}

proof fn lemma_shared_below_contains(ks: Seq<AssetKeys>, m: Seq<int>, k: int, s: Seq<char>)
    requires
        0 <= k <= m.len(),
    ensures
        shared_below(ks, m, k).contains(s) <==> exists|t: int|
            0 <= t < k && ks[m[t]].0 == Some(s) && #[trigger] has_twin(ks, m, m[t]),
        shared_below(ks, m, k).no_duplicates(),
    decreases k,
{
    if k > 0 {
        lemma_shared_below_contains(ks, m, k - 1, s);
        let acc = shared_below(ks, m, k - 1);
        let x = m[k - 1];
        if shared_below(ks, m, k).contains(s) && !acc.contains(s) {
            let i = choose|i: int| 0 <= i < shared_below(ks, m, k).len() && shared_below(ks, m, k)[i] == s;
            assert(ks[x].0 == Some(s) && has_twin(ks, m, x));
        }
        if exists|t: int| 0 <= t < k && ks[m[t]].0 == Some(s) && #[trigger] has_twin(ks, m, m[t]) {
            let t = choose|t: int| 0 <= t < k && ks[m[t]].0 == Some(s) && #[trigger] has_twin(ks, m, m[t]);
            if t < k - 1 {
                assert(acc.contains(s));
                let i = choose|i: int| 0 <= i < acc.len() && acc[i] == s;
                match ks[x].0 {
                    Some(z) => if has_twin(ks, m, x) && !acc.contains(z) {
                        assert(acc.push(z)[i] == s);
                    },
                    None => {},
                }
            } else if !acc.contains(s) {
                assert(acc.push(s)[acc.len() as int] == s);
            }
        }
        match ks[x].0 {
            Some(z) => if has_twin(ks, m, x) && !acc.contains(z) {
                let c = acc.push(z);
                assert forall|i: int, j: int| 0 <= i < c.len() && 0 <= j < c.len() && i != j implies c[i] != c[j] by {
                    if i == acc.len() {
                        assert(acc.contains(c[j]));
                    } else if j == acc.len() {
                        assert(acc.contains(c[i]));
                    }
                }
            },
            None => {},
        }
    }
}

proof fn lemma_shared_carried(kb: Seq<AssetKeys>, ka: Seq<AssetKeys>, mb: Seq<int>, ma: Seq<int>, perm: Seq<int>, inv: Seq<int>, s: Seq<char>)
    requires
        reorders(kb, ka, perm, inv),
        corresponds(mb, ma, perm, inv, kb.len() as int),
        shared_below(kb, mb, mb.len() as int).contains(s),
    ensures
        shared_below(ka, ma, ma.len() as int).contains(s),
{
    lemma_shared_below_contains(kb, mb, mb.len() as int, s);
    let t = choose|t: int| 0 <= t < mb.len() && kb[mb[t]].0 == Some(s) && #[trigger] has_twin(kb, mb, mb[t]);
    let x = mb[t];
    assert(mb.contains(x));
    lemma_twin_carried(kb, ka, mb, ma, perm, inv, x);
    let u = choose|u: int| 0 <= u < ma.len() && ma[u] == perm[x];
    assert(kb[x] == ka[perm[x]]);
    assert(ka[ma[u]].0 == Some(s) && has_twin(ka, ma, ma[u]));
    lemma_shared_below_contains(ka, ma, ma.len() as int, s);
}

proof fn lemma_ambiguous_carried(kb: Seq<AssetKeys>, ka: Seq<AssetKeys>, mb: Seq<int>, ma: Seq<int>, perm: Seq<int>, inv: Seq<int>)
    requires
        reorders(kb, ka, perm, inv),
        corresponds(mb, ma, perm, inv, kb.len() as int),
        mb.no_duplicates(),
        ambiguous(kb, mb),
    ensures
        ambiguous(ka, ma),
{
    let (t, u) = choose|t: int, u: int|
        0 <= t < u < mb.len() && (#[trigger] kb[mb[t]]).2 is Some && kb[mb[t]].2 == (#[trigger] kb[mb[u]]).2 && (
        kb[mb[t]].1 is None || kb[mb[u]].1 is None);
    let x = mb[t];
    let y = mb[u];
    assert(mb.contains(x) && mb.contains(y));
    assert(x != y);
    let t2 = choose|i: int| 0 <= i < ma.len() && ma[i] == perm[x];
    let u2 = choose|i: int| 0 <= i < ma.len() && ma[i] == perm[y];
    assert(kb[x] == ka[perm[x]] && kb[y] == ka[perm[y]]);
    assert(inv[perm[y]] == y && inv[perm[x]] == x);
    assert(t2 != u2);
    if t2 < u2 {
        assert(ka[ma[t2]].2 is Some && ka[ma[t2]].2 == ka[ma[u2]].2);
    } else {
        assert(ka[ma[u2]].2 is Some && ka[ma[u2]].2 == ka[ma[t2]].2);
    }
}

proof fn lemma_correspond_back(mb: Seq<int>, ma: Seq<int>, perm: Seq<int>, inv: Seq<int>, n: int, b: Seq<AssetKeys>, a: Seq<AssetKeys>)
    requires
        reorders(b, a, perm, inv),
        n == b.len(),
        corresponds(mb, ma, perm, inv, n),
    ensures
        corresponds(ma, mb, inv, perm, n),
{
    assert forall|x: int| #[trigger] mb.contains(x) implies 0 <= x < n && ma.contains(perm[x]) && mb.contains(inv[perm[x]]) by {
        assert(inv[perm[x]] == x);
    }
}

/// The reasons of a group do not depend on the order of its members.
proof fn lemma_reasons_reordered(kb: Seq<AssetKeys>, ka: Seq<AssetKeys>, mb: Seq<int>, ma: Seq<int>, perm: Seq<int>, inv: Seq<int>)
    requires
        reorders(kb, ka, perm, inv),
        corresponds(mb, ma, perm, inv, kb.len() as int),
        mb.no_duplicates(),
        ma.no_duplicates(),
    ensures
        reasons(kb, mb) == reasons(ka, ma),
{
    let n = kb.len() as int;
    lemma_reorders_back(kb, ka, perm, inv);
    lemma_correspond_back(mb, ma, perm, inv, n, kb, ka);
    let sb = shared_below(kb, mb, mb.len() as int);
    let sa = shared_below(ka, ma, ma.len() as int);
    lemma_shared_below_contains(kb, mb, mb.len() as int, Seq::empty());
    lemma_shared_below_contains(ka, ma, ma.len() as int, Seq::empty());
    assert forall|z: Seq<char>| sb.contains(z) <==> sa.contains(z) by {
        if sb.contains(z) {
            lemma_shared_carried(kb, ka, mb, ma, perm, inv, z);
        }
        if sa.contains(z) {
            lemma_shared_carried(ka, kb, ma, mb, inv, perm, z);
        }
    }
    lemma_string_orders_total();
    lemma_total_is_weak(str_lt_fn());
    lemma_isort_unique(sb, str_lt_fn());
    lemma_isort_unique(sa, str_lt_fn());
    lemma_isort_sorted(sb, str_lt_fn());
    lemma_isort_sorted(sa, str_lt_fn());
    assert forall|z: Seq<char>| isort(sb, str_lt_fn()).contains(z) <==> isort(sa, str_lt_fn()).contains(z) by {
        assert(isort(sb, str_lt_fn()).contains(z) <==> sb.contains(z));
        assert(isort(sa, str_lt_fn()).contains(z) <==> sa.contains(z));
        assert(sb.contains(z) <==> sa.contains(z));
    }
    lemma_sorted_same(isort(sb, str_lt_fn()), isort(sa, str_lt_fn()), str_lt_fn());
    if ambiguous(kb, mb) {
        lemma_ambiguous_carried(kb, ka, mb, ma, perm, inv);
    }
    if ambiguous(ka, ma) {
        lemma_ambiguous_carried(ka, kb, ma, mb, inv, perm);
    }
}

pub open spec fn distinct_ids(assets: Seq<AssetRecord>) -> bool {
    forall|i: int, j: int| 0 <= i < j < assets.len() ==> (#[trigger] assets[i]).id@ != (#[trigger] assets[j]).id@
}

proof fn lemma_distinct_ids_reordered(b: Seq<AssetRecord>, a: Seq<AssetRecord>, perm: Seq<int>, inv: Seq<int>)
    requires
        reorders(b, a, perm, inv),
        distinct_ids(a),
    ensures
        distinct_ids(b),
{
    assert forall|i: int, j: int| 0 <= i < j < b.len() implies (#[trigger] b[i]).id@ != (#[trigger] b[j]).id@ by {
        let (x, y) = (perm[i], perm[j]);
        assert(b[i] == a[x] && b[j] == a[y]);
        assert(inv[x] == i && inv[y] == j);
        if x < y {
            assert(a[x].id@ != a[y].id@);
        } else {
            assert(a[y].id@ != a[x].id@);
        }
    }
}

proof fn lemma_ids_unique(assets: Seq<AssetRecord>, m: Seq<int>)
    requires
        distinct_ids(assets),
        m.no_duplicates(),
        forall|t: int| 0 <= t < m.len() ==> 0 <= #[trigger] m[t] < assets.len(),
    ensures
        ids_at(assets, m).no_duplicates(),
{
    let v = ids_at(assets, m);
    assert forall|i: int, j: int| 0 <= i < v.len() && 0 <= j < v.len() && i != j implies v[i] != v[j] by {
        let (x, y) = (m[i], m[j]);
        assert(x != y);
        if x < y {
            assert(assets[x].id@ != assets[y].id@);
        } else {
            assert(assets[y].id@ != assets[x].id@);
        }
    }
}

/// A row's group in the reordered list is its group in `a`.
proof fn lemma_group_of_reordered(b: Seq<AssetRecord>, a: Seq<AssetRecord>, perm: Seq<int>, inv: Seq<int>, r: int)
    requires
        reorders(b, a, perm, inv),
        distinct_ids(a),
        0 <= r < b.len(),
    ensures
        group_of(b, r) == group_of(a, perm[r]),
        members(all_keys(b), r).len() == group_of(b, r).0.len(),
        members(all_keys(a), perm[r]).len() == group_of(a, perm[r]).0.len(),
{
    let n = b.len() as int;
    let kb = all_keys(b);
    let ka = all_keys(a);
    lemma_keys_reordered(b, a, perm, inv);
    lemma_distinct_ids_reordered(b, a, perm, inv);
    let mb = members(kb, r);
    let ma = members(ka, perm[r]);
    lemma_members_correspond(kb, ka, perm, inv, r);
    lemma_members_increasing(kb, r, n);
    lemma_members_increasing(ka, perm[r], n);
    assert forall|t: int| 0 <= t < mb.len() implies 0 <= #[trigger] mb[t] < b.len() by {
        assert(mb.contains(mb[t]));
    }
    assert forall|t: int| 0 <= t < ma.len() implies 0 <= #[trigger] ma[t] < a.len() by {
        assert(ma.contains(ma[t]));
    }
    let ib = ids_at(b, mb);
    let ia = ids_at(a, ma);
    lemma_ids_unique(b, mb);
    lemma_ids_unique(a, ma);
    assert forall|z: Seq<char>| ib.contains(z) <==> ia.contains(z) by {
        if ib.contains(z) {
            let i = choose|i: int| 0 <= i < ib.len() && ib[i] == z;
            let x = mb[i];
            assert(mb.contains(x));
            let j = choose|j: int| 0 <= j < ma.len() && ma[j] == perm[x];
            assert(b[x] == a[perm[x]]);
            assert(ia[j] == z);
        }
        if ia.contains(z) {
            let i = choose|i: int| 0 <= i < ia.len() && ia[i] == z;
            let y = ma[i];
            assert(ma.contains(y));
            let j = choose|j: int| 0 <= j < mb.len() && mb[j] == inv[y];
            assert(b[inv[y]] == a[perm[inv[y]]]);
            assert(ib[j] == z);
        }
    }
    lemma_string_orders_total();
    lemma_total_is_weak(str_lt_fn());
    lemma_isort_unique(ib, str_lt_fn());
    lemma_isort_unique(ia, str_lt_fn());
    lemma_isort_sorted(ib, str_lt_fn());
    lemma_isort_sorted(ia, str_lt_fn());
    lemma_isort_elements(ib, str_lt_fn());
    lemma_isort_elements(ia, str_lt_fn());
    assert forall|z: Seq<char>| isort(ib, str_lt_fn()).contains(z) <==> isort(ia, str_lt_fn()).contains(z) by {
        assert(isort(ib, str_lt_fn()).contains(z) <==> ib.contains(z));
        assert(isort(ia, str_lt_fn()).contains(z) <==> ia.contains(z));
    }
    lemma_sorted_same(isort(ib, str_lt_fn()), isort(ia, str_lt_fn()), str_lt_fn());
    lemma_reasons_reordered(kb, ka, mb, ma, perm, inv);
}

/// Every row's group has a leading row: its first.
proof fn lemma_leader(ks: Seq<AssetKeys>, x: int) -> (l: int)
    requires
        0 <= x,
    ensures
        0 <= l <= x,
        leads(ks, l),
        same_group(ks, l, x),
    decreases x,
{
    if leads(ks, x) {
        lemma_same_group_refl(ks, x);
        x
    } else {
        let b = choose|b: int| 0 <= b < x && #[trigger] same_group(ks, x, b);
        let l = lemma_leader(ks, b);
        lemma_same_group_symmetric(ks, x, b);
        lemma_same_group_trans(ks, l, b, x);
        l
    }
}

proof fn lemma_raw_contains(assets: Seq<AssetRecord>, k: int, r: int)
    requires
        0 <= r < k,
        reported(all_keys(assets), r),
    ensures
        groups_below(assets, k).contains(group_of(assets, r)),
    decreases k,
{
    let prev = groups_below(assets, k - 1);
    if r == k - 1 {
        assert(groups_below(assets, k) == prev.push(group_of(assets, r)));
        assert(prev.push(group_of(assets, r))[prev.len() as int] == group_of(assets, r));
    } else {
        lemma_raw_contains(assets, k - 1, r);
        let i = choose|i: int| 0 <= i < prev.len() && prev[i] == group_of(assets, r);
        if reported(all_keys(assets), k - 1) {
            assert(prev.push(group_of(assets, k - 1))[i] == group_of(assets, r));
        }
    }
}

proof fn lemma_raw_carried(b: Seq<AssetRecord>, a: Seq<AssetRecord>, perm: Seq<int>, inv: Seq<int>, g: GroupView)
    requires
        reorders(b, a, perm, inv),
        distinct_ids(a),
        groups_below(b, b.len() as int).contains(g),
    ensures
        groups_below(a, a.len() as int).contains(g),
{
    let n = b.len() as int;
    let kb = all_keys(b);
    let ka = all_keys(a);
    lemma_groups_below_reported(b, n);
    let r = choose|r: int| 0 <= r < n && reported(kb, r) && g == group_of(b, r);
    lemma_group_of_reordered(b, a, perm, inv, r);
    let y = perm[r];
    let l = lemma_leader(ka, y);
    lemma_members_of_class(ka, l, y, n);
    assert(members(ka, l) == members(ka, y));
    assert(group_of(a, l) == group_of(a, y));
    assert(reported(ka, l));
    lemma_raw_contains(a, n, l);
}

/// When no two assets share an id, the groups found do not depend on the
/// order in which the assets are listed.
pub proof fn lemma_duplicate_groups_order_free(b: Seq<AssetRecord>, a: Seq<AssetRecord>, perm: Seq<int>, inv: Seq<int>)
    requires
        reorders(b, a, perm, inv),
        distinct_ids(a),
    ensures
        duplicate_groups(b) == duplicate_groups(a),
{
    lemma_reorders_back(b, a, perm, inv);
    lemma_distinct_ids_reordered(b, a, perm, inv);
    let rb = groups_below(b, b.len() as int);
    let ra = groups_below(a, a.len() as int);
    assert forall|g: GroupView| rb.contains(g) <==> ra.contains(g) by {
        if rb.contains(g) {
            lemma_raw_carried(b, a, perm, inv, g);
        }
        if ra.contains(g) {
            lemma_raw_carried(a, b, inv, perm, g);
        }
    }
    lemma_raw_groups_unique(b, b.len() as int);
    lemma_raw_groups_unique(a, a.len() as int);
    lemma_isort_unique(rb, by_ids());
    lemma_isort_unique(ra, by_ids());
    lemma_duplicate_groups_sorted(b);
    lemma_duplicate_groups_sorted(a);
    lemma_duplicate_groups_disjoint(a);
    let ob = duplicate_groups(b);
    let oa = duplicate_groups(a);
    assert forall|g: GroupView| ob.contains(g) <==> oa.contains(g) by {
        assert(ob.contains(g) <==> rb.contains(g));
        assert(oa.contains(g) <==> ra.contains(g));
    }
    lemma_string_orders_total();
    assert forall|g: GroupView| !#[trigger] (by_ids())(g, g) by {
        assert(!(lex_fn(str_lt_fn()))(g.0, g.0));
    }
    assert forall|x: GroupView, y: GroupView| ob.contains(x) && ob.contains(y) && x != y implies #[trigger] (by_ids())(x, y)
        || #[trigger] (by_ids())(y, x) by {
        assert(oa.contains(x) && oa.contains(y));
        let i = choose|i: int| 0 <= i < oa.len() && oa[i] == x;
        let j = choose|j: int| 0 <= j < oa.len() && oa[j] == y;
        assert(i != j);
        if i < j {
            assert(strs_lt(oa[i].0, oa[j].0));
        } else {
            assert(strs_lt(oa[j].0, oa[i].0));
        }
    }
    lemma_sorted_same(ob, oa, by_ids());
}

} // verus!
