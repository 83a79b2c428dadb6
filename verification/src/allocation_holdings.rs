//! Drilling into one category of an allocation: which categories roll up
//! into it, which holdings fall in it (cash in the cash categories of the
//! asset classes, unassigned holdings in "Unknown", otherwise by the
//! weights of their assets' assignments), and each holding's weighted value
//! and share of the category.
use vstd::prelude::*;

use crate::allocation::{
    acyclic, cat_views, last_category, top_level_ancestor, top_of, unknown_key, CatView,
    Category, TaxonomyWithCategories,
};
use crate::decimal::{
    as_dec, dec_checked_add, dec_checked_div, dec_checked_mul, dec_lt, dec_round_dp, decimal_checked_add,
    decimal_checked_div, decimal_checked_mul, rounded, Dec,
};
use crate::text::{opt_chars, owned, str_eq};
use crate::tools::holdings::HoldingType;

verus! {

/// The categories whose holdings a drill-down into `category_id` shows:
/// the category itself and every category rolled up into it, in
/// category order; just "__UNKNOWN__" for the unknown category.
pub open spec fn matching_ids(cats: Seq<CatView>, category_id: Seq<char>, k: int) -> Seq<Seq<char>>
    decreases k,
{
    if k <= 0 {
        Seq::empty()
    } else {
        let r = matching_ids(cats, category_id, k - 1);
        let id = cats[k - 1].0;
        if id == category_id || top_of(cats, id, true) == category_id {
            r.push(id)
        } else {
            r
        }
    }
}

pub open spec fn matching_categories(cats: Seq<CatView>, category_id: Seq<char>) -> Seq<Seq<char>> {
    if category_id == unknown_key() {
        seq![unknown_key()]
    } else {
        matching_ids(cats, category_id, cats.len() as int)
    }
}

pub open spec fn strings(v: Seq<String>) -> Seq<Seq<char>> {
    v.map_values(|s: String| s@)
}

/// The categories a drill-down into `category_id` covers (see
/// [`matching_categories`]).
pub fn matching_category_ids(categories: &Vec<Category>, category_id: &str) -> (r: Vec<String>)
    requires
        acyclic(cat_views(categories@)),
    ensures
        strings(r@) == matching_categories(cat_views(categories@), category_id@),
{
    if str_eq(category_id, "__UNKNOWN__") {
        let mut r: Vec<String> = Vec::new();
        r.push(owned("__UNKNOWN__"));
        assert(strings(r@) =~= seq![unknown_key()]);
        return r;
    }
    let ghost cv = cat_views(categories@);
    let mut out: Vec<String> = Vec::new();
    let mut i: usize = 0;
    while i < categories.len()
        invariant
            cv == cat_views(categories@),
            acyclic(cv),
            i <= categories@.len(),
            strings(out@) == matching_ids(cv, category_id@, i as int),
        decreases categories.len() - i,
    {
        let id = categories[i].id.as_str();
        let top = top_level_ancestor(categories, id, true);
        if str_eq(id, category_id) || str_eq(top.as_str(), category_id) {
            let ghost before = strings(out@);
            out.push(owned(id));
            assert(strings(out@) =~= before.push(cv[i as int].0));
        }
        i = i + 1;
    }
    out
}

/// What a drill-down reads of a holding.
pub struct DrillHolding {
    pub id: String,
    pub holding_type: HoldingType,
    /// The asset the holding is in, when it has an instrument.
    pub asset_id: Option<String>,
    pub symbol: String,
    pub name: Option<String>,
    pub quantity: Dec,
    /// The value in the base currency.
    pub market_value: Dec,
    pub base_currency: String,
}

/// An asset's weight (in basis points) in a category.
pub struct CategoryAssignment {
    pub asset_id: String,
    pub weight: i32,
}

/// A holding as shown in a category: its asset, weighted value and share
/// of the category (a percentage, two decimals).
pub struct HoldingSummary {
    pub id: String,
    pub symbol: String,
    pub name: Option<String>,
    pub holding_type: HoldingType,
    pub quantity: Dec,
    pub market_value: Dec,
    pub currency: String,
    pub weight_in_category: Dec,
}

/// The holdings of one category of a taxonomy.
pub struct AllocationHoldings {
    pub taxonomy_id: String,
    pub taxonomy_name: String,
    pub category_id: String,
    pub category_name: String,
    pub color: String,
    pub holdings: Vec<HoldingSummary>,
    pub total_value: Dec,
    pub currency: String,
}

pub type DrillView = (Seq<char>, HoldingType, Option<Seq<char>>, Seq<char>, Option<Seq<char>>, Dec, Dec, Seq<char>);

pub open spec fn drill_views(v: Seq<DrillHolding>) -> Seq<DrillView> {
    v.map_values(
        |h: DrillHolding|
            (h.id@, h.holding_type, opt_chars(h.asset_id), h.symbol@, opt_chars(h.name), h.quantity, h.market_value, h.base_currency@),
    )
}

pub type SummaryView = (Seq<char>, Seq<char>, Option<Seq<char>>, HoldingType, Dec, Dec, Seq<char>, Dec);

pub open spec fn summary_views(v: Seq<HoldingSummary>) -> Seq<SummaryView> {
    v.map_values(
        |s: HoldingSummary|
            (s.id@, s.symbol@, opt_chars(s.name), s.holding_type, s.quantity, s.market_value, s.currency@, s.weight_in_category),
    )
}

pub ghost struct AllocationHoldingsView {
    pub taxonomy_id: Seq<char>,
    pub taxonomy_name: Seq<char>,
    pub category_id: Seq<char>,
    pub category_name: Seq<char>,
    pub color: Seq<char>,
    pub holdings: Seq<SummaryView>,
    pub total_value: Dec,
    pub currency: Seq<char>,
}

impl AllocationHoldings {
    pub open spec fn view(&self) -> AllocationHoldingsView {
        AllocationHoldingsView {
            taxonomy_id: self.taxonomy_id@,
            taxonomy_name: self.taxonomy_name@,
            category_id: self.category_id@,
            category_name: self.category_name@,
            color: self.color@,
            holdings: summary_views(self.holdings@),
            total_value: self.total_value,
            currency: self.currency@,
        }
    }
}

pub type WeightEntry = (Seq<char>, i32);

pub open spec fn assignment_views(v: Seq<CategoryAssignment>) -> Seq<WeightEntry> {
    v.map_values(|a: CategoryAssignment| (a.asset_id@, a.weight))
}

/// The first position of asset `aid` among the first `k` weights, or -1.
pub open spec fn weight_index(m: Seq<WeightEntry>, aid: Seq<char>, k: int) -> int
    decreases k,
{
    if k <= 0 {
        -1
    } else {
        let r = weight_index(m, aid, k - 1);
        if r >= 0 {
            r
        } else if m[k - 1].0 == aid {
            k - 1
        } else {
            -1
        }
    }
}

/// Each asset's total weight over the first `k` assignments, in order of
/// first appearance; nothing when a total leaves the range of `i32`.
pub open spec fn asset_weights(entries: Seq<WeightEntry>, k: int) -> Option<Seq<WeightEntry>>
    decreases k,
{
    if k <= 0 {
        Some(Seq::empty())
    } else {
        match asset_weights(entries, k - 1) {
            None => None,
            Some(m) => {
                let aid = entries[k - 1].0;
                let w = entries[k - 1].1;
                let i = weight_index(m, aid, m.len() as int);
                if i >= 0 {
                    let s = m[i].1 + w;
                    if i32::MIN <= s <= i32::MAX {
                        Some(m.update(i, (aid, s as i32)))
                    } else {
                        None
                    }
                } else {
                    Some(m.push((aid, w)))
                }
            },
        }
    }
}

/// The weight a holding enters the category with, if it does: cash counts
/// fully in the cash categories of the asset classes; in "Unknown" a
/// holding counts fully when its asset has no assignment in the taxonomy;
/// otherwise by its asset's total weight in the matching categories.
pub open spec fn holding_weight(
    h: DrillView,
    has_assignment: bool,
    tid: Seq<char>,
    cid: Seq<char>,
    mids: Seq<Seq<char>>,
    wm: Seq<WeightEntry>,
) -> Option<i32> {
    match h.2 {
        None => None,
        Some(aid) => if h.1 == HoldingType::Cash && tid == "asset_classes"@ && (mids.contains("CASH"@) || mids.contains(
            "CASH_BANK_DEPOSITS"@,
        )) {
            Some(10000i32)
        } else if cid == unknown_key() {
            if !has_assignment {
                Some(10000i32)
            } else {
                None
            }
        } else {
            let i = weight_index(wm, aid, wm.len() as int);
            if i >= 0 {
                Some(wm[i].1)
            } else {
                None
            }
        },
    }
}

/// The holdings among the first `k` that enter the category, with their
/// weights.
pub open spec fn matched_holdings(
    hs: Seq<DrillView>,
    flags: Seq<bool>,
    tid: Seq<char>,
    cid: Seq<char>,
    mids: Seq<Seq<char>>,
    wm: Seq<WeightEntry>,
    k: int,
) -> Seq<(int, i32)>
    decreases k,
{
    if k <= 0 {
        Seq::empty()
    } else {
        let r = matched_holdings(hs, flags, tid, cid, mids, wm, k - 1);
        match holding_weight(hs[k - 1], flags[k - 1], tid, cid, mids, wm) {
            Some(w) => r.push((k - 1, w)),
            None => r,
        }
    }
}

/// `value * (weight / 10000)`, checked.
pub open spec fn weighted_checked(mv: Dec, w: i32) -> Option<Dec> {
    match as_dec(decimal_checked_div((w as i128, 0u32), (10000i128, 0u32))) {
        Some(q) => as_dec(decimal_checked_mul(mv.pair(), q.pair())),
        None => None,
    }
}

/// The sum of the first `k` matched holdings' weighted values, checked.
pub open spec fn matched_total(hs: Seq<DrillView>, m: Seq<(int, i32)>, k: int) -> Option<Dec>
    decreases k,
{
    if k <= 0 {
        Some(Dec { mantissa: 0, scale: 0 })
    } else {
        match (matched_total(hs, m, k - 1), weighted_checked(hs[m[k - 1].0].6, m[k - 1].1)) {
            (Some(t), Some(w)) => as_dec(decimal_checked_add(t.pair(), w.pair())),
            _ => None,
        }
    }
}

/// A weighted value's share of the category's total, as a two-decimal
/// percentage; zero when the total is not positive.
pub open spec fn share_of(wv: Dec, total: Dec) -> Option<Dec> {
    if total.units() > 0 {
        match as_dec(decimal_checked_div(wv.pair(), total.pair())) {
            Some(q) => match as_dec(decimal_checked_mul(q.pair(), (100i128, 0u32))) {
                Some(x) => Some(Dec { mantissa: rounded(x, 2).0 as i128, scale: rounded(x, 2).1 }),
                None => None,
            },
            None => None,
        }
    } else {
        Some(Dec { mantissa: 0, scale: 0 })
    }
}

pub open spec fn summary_at(hs: Seq<DrillView>, m: Seq<(int, i32)>, total: Dec, i: int) -> Option<SummaryView> {
    let h = hs[m[i].0];
    match weighted_checked(h.6, m[i].1) {
        Some(wv) => match share_of(wv, total) {
            Some(share) => Some((h.2.unwrap(), h.3, h.4, h.1, h.5, wv, h.7, share)),
            None => None,
        },
        None => None,
    }
}

pub open spec fn summaries(hs: Seq<DrillView>, m: Seq<(int, i32)>, total: Dec, k: int) -> Option<Seq<SummaryView>>
    decreases k,
{
    if k <= 0 {
        Some(Seq::empty())
    } else {
        match (summaries(hs, m, total, k - 1), summary_at(hs, m, total, k - 1)) {
            (Some(s), Some(x)) => Some(s.push(x)),
            _ => None,
        }
    }
}

/// Larger weighted values first.
pub open spec fn summary_before() -> spec_fn(SummaryView, SummaryView) -> bool {
    |a: SummaryView, b: SummaryView| a.5.units() > b.5.units()
}

/// The first category with id `id`.
pub open spec fn first_category(cats: Seq<CatView>, id: Seq<char>, k: int) -> Option<CatView>
    decreases k,
{
    if k <= 0 {
        None
    } else {
        match first_category(cats, id, k - 1) {
            Some(c) => Some(c),
            None => if cats[k - 1].0 == id {
                Some(cats[k - 1])
            } else {
                None
            },
        }
    }
}

/// The taxonomy's name, colour and categories, as the drill-down takes
/// them: "Unknown" in grey with no categories when the taxonomy is not
/// found.
pub open spec fn taxonomy_meta(t: Option<(Seq<char>, Seq<char>, Seq<CatView>)>) -> (Seq<char>, Seq<char>, Seq<CatView>) {
    match t {
        Some(x) => x,
        None => ("Unknown"@, "#808080"@, Seq::empty()),
    }
}

/// The category's name and colour: "Unknown" for the unknown category;
/// else the first category with the id; else the id in the taxonomy's
/// colour.
pub open spec fn category_meta(cats: Seq<CatView>, cid: Seq<char>, tcolor: Seq<char>) -> (Seq<char>, Seq<char>) {
    if cid == unknown_key() {
        ("Unknown"@, "#878580"@)
    } else {
        match first_category(cats, cid, cats.len() as int) {
            Some(c) => (c.1, c.2),
            None => (cid, tcolor),
        }
    }
}

/// The drill-down: the matched holdings, largest weighted value first,
/// and their total; nothing when the arithmetic overflows.
pub open spec fn drill_down(
    hs: Seq<DrillView>,
    flags: Seq<bool>,
    tid: Seq<char>,
    cid: Seq<char>,
    base: Seq<char>,
    tax: Option<(Seq<char>, Seq<char>, Seq<CatView>)>,
    mids: Seq<Seq<char>>,
    entries: Seq<WeightEntry>,
) -> Option<AllocationHoldingsView> {
    let (tname, tcolor, cats) = taxonomy_meta(tax);
    let (cname, ccolor) = category_meta(cats, cid, tcolor);
    if hs.len() == 0 {
        Some(
            AllocationHoldingsView {
                taxonomy_id: tid,
                taxonomy_name: tname,
                category_id: cid,
                category_name: cname,
                color: ccolor,
                holdings: Seq::empty(),
                total_value: Dec { mantissa: 0, scale: 0 },
                currency: base,
            },
        )
    } else {
        match asset_weights(entries, entries.len() as int) {
            None => None,
            Some(wm) => {
                let m = matched_holdings(hs, flags, tid, cid, mids, wm, hs.len() as int);
                match matched_total(hs, m, m.len() as int) {
                    None => None,
                    Some(total) => match summaries(hs, m, total, m.len() as int) {
                        None => None,
                        Some(ss) => Some(
                            AllocationHoldingsView {
                                taxonomy_id: tid,
                                taxonomy_name: tname,
                                category_id: cid,
                                category_name: cname,
                                color: ccolor,
                                holdings: crate::sorting::isort(ss, summary_before()),
                                total_value: total,
                                currency: base,
                            },
                        ),
                    },
                }
            },
        }
    }
}

fn contains_id(ids: &Vec<String>, id: &str) -> (r: bool)
    ensures
        r == strings(ids@).contains(id@),
{
    let mut i: usize = 0;
    while i < ids.len()
        invariant
            i <= ids@.len(),
            forall|j: int| 0 <= j < i ==> strings(ids@)[j] != id@,
        decreases ids.len() - i,
    {
        if str_eq(ids[i].as_str(), id) {
            assert(strings(ids@)[i as int] == id@);
            return true;
        }
        i = i + 1;
    }
    false
}

proof fn lemma_weight_index(m: Seq<WeightEntry>, aid: Seq<char>, j: int, k: int)
    requires
        0 <= j <= k <= m.len(),
    ensures
        weight_index(m, aid, j) >= 0 ==> weight_index(m, aid, k) == weight_index(m, aid, j),
        -1 <= weight_index(m, aid, k) < k,
        weight_index(m, aid, k) >= 0 ==> m[weight_index(m, aid, k)].0 == aid,
    decreases k,
{
    if k > 0 {
        if j < k {
            lemma_weight_index(m, aid, j, k - 1);
        } else {
            lemma_weight_index(m, aid, k - 1, k - 1);
        }
    }
}

proof fn lemma_weight_index_update(m: Seq<WeightEntry>, aid: Seq<char>, i: int, x: WeightEntry, k: int)
    requires
        0 <= i < m.len(),
        0 <= k <= m.len(),
        x.0 == m[i].0,
    ensures
        weight_index(m.update(i, x), aid, k) == weight_index(m, aid, k),
    decreases k,
{
    if k > 0 {
        lemma_weight_index_update(m, aid, i, x, k - 1);
    }
}

fn find_weight(m: &Vec<(String, i32)>, aid: &str) -> (r: Option<usize>)
    ensures
        match r {
            Some(i) => i < m@.len() && weight_index(weight_views(m@), aid@, m@.len() as int) == i,
            None => weight_index(weight_views(m@), aid@, m@.len() as int) == -1,
        },
{
    let ghost wv = weight_views(m@);
    let mut i: usize = 0;
    while i < m.len()
        invariant
            wv == weight_views(m@),
            i <= m@.len(),
            weight_index(wv, aid@, i as int) == -1,
        decreases m.len() - i,
    {
        if str_eq(m[i].0.as_str(), aid) {
            proof {
                assert(weight_index(wv, aid@, i + 1) == i);
                lemma_weight_index(wv, aid@, i + 1, m@.len() as int);
            }
            return Some(i);
        }
        i = i + 1;
    }
    None
}

pub open spec fn weight_views(m: Seq<(String, i32)>) -> Seq<WeightEntry> {
    m.map_values(|e: (String, i32)| (e.0@, e.1))
}

proof fn lemma_asset_weights_stay_none(entries: Seq<WeightEntry>, j: int, k: int)
    requires
        0 <= j <= k,
        asset_weights(entries, j) is None,
    ensures
        asset_weights(entries, k) is None,
    decreases k,
{
    if k > j {
        lemma_asset_weights_stay_none(entries, j, k - 1);
    }
}

fn total_weights(entries: &Vec<CategoryAssignment>) -> (r: Option<Vec<(String, i32)>>)
    ensures
        match r {
            Some(m) => asset_weights(assignment_views(entries@), entries@.len() as int) == Some(weight_views(m@)),
            None => asset_weights(assignment_views(entries@), entries@.len() as int) is None,
        },
{
    let ghost ev = assignment_views(entries@);
    let mut m: Vec<(String, i32)> = Vec::new();
    let mut i: usize = 0;
    assert(weight_views(m@) =~= Seq::<WeightEntry>::empty());
    while i < entries.len()
        invariant
            ev == assignment_views(entries@),
            i <= entries@.len(),
            asset_weights(ev, i as int) == Some(weight_views(m@)),
        decreases entries.len() - i,
    {
        let e = &entries[i];
        let ghost before = weight_views(m@);
        assert(ev[i as int] == (e.asset_id@, e.weight));
        match find_weight(&m, e.asset_id.as_str()) {
            Some(k) => {
                proof {
                    lemma_weight_index(before, e.asset_id@, 0, before.len() as int);
                }
                match m[k].1.checked_add(e.weight) {
                    Some(s) => {
                        let key = m[k].0.clone();
                        m.set(k, (key, s));
                        assert(weight_views(m@) =~= before.update(k as int, (e.asset_id@, s)));
                    },
                    None => {
                        proof {
                            assert(asset_weights(ev, i + 1) is None);
                            lemma_asset_weights_stay_none(ev, i + 1, entries@.len() as int);
                        }
                        return None;
                    },
                }
            },
            None => {
                m.push((e.asset_id.clone(), e.weight));
                assert(weight_views(m@) =~= before.push((e.asset_id@, e.weight)));
            },
        }
        i = i + 1;
    }
    Some(m)
}

fn matched(
    holdings: &Vec<DrillHolding>,
    flags: &Vec<bool>,
    taxonomy_id: &str,
    category_id: &str,
    mids: &Vec<String>,
    wm: &Vec<(String, i32)>,
) -> (r: Vec<(usize, i32)>)
    requires
        flags@.len() == holdings@.len(),
    ensures
        r@.len() <= holdings@.len(),
        forall|j: int| 0 <= j < r@.len() ==> (#[trigger] r@[j]).0 < holdings@.len(),
        positions(r@) == matched_holdings(
            drill_views(holdings@),
            flags@,
            taxonomy_id@,
            category_id@,
            strings(mids@),
            weight_views(wm@),
            holdings@.len() as int,
        ),
{
    let ghost hv = drill_views(holdings@);
    let cash_category = str_eq(taxonomy_id, "asset_classes") && (contains_id(mids, "CASH") || contains_id(
        mids,
        "CASH_BANK_DEPOSITS",
    ));
    let unknown = str_eq(category_id, "__UNKNOWN__");
    let mut out: Vec<(usize, i32)> = Vec::new();
    let mut i: usize = 0;
    while i < holdings.len()
        invariant
            hv == drill_views(holdings@),
            flags@.len() == holdings@.len(),
            i <= holdings@.len(),
            cash_category == (taxonomy_id@ == "asset_classes"@ && (strings(mids@).contains("CASH"@) || strings(
                mids@,
            ).contains("CASH_BANK_DEPOSITS"@))),
            unknown == (category_id@ == unknown_key()),
            out@.len() <= i,
            forall|j: int| 0 <= j < out@.len() ==> (#[trigger] out@[j]).0 < i,
            positions(out@) == matched_holdings(hv, flags@, taxonomy_id@, category_id@, strings(mids@), weight_views(wm@), i as int),
        decreases holdings.len() - i,
    {
        let h = &holdings[i];
        assert(hv[i as int] == (h.id@, h.holding_type, opt_chars(h.asset_id), h.symbol@, opt_chars(h.name), h.quantity, h.market_value, h.base_currency@));
        let is_cash = match h.holding_type {
            HoldingType::Cash => true,
            _ => false,
        };
        let w: Option<i32> = match &h.asset_id {
            None => None,
            Some(aid) => if is_cash && cash_category {
                Some(10000)
            } else if unknown {
                if !flags[i] {
                    Some(10000)
                } else {
                    None
                }
            } else {
                match find_weight(wm, aid.as_str()) {
                    Some(k) => Some(wm[k].1),
                    None => None,
                }
            },
        };
        assert(w == holding_weight(hv[i as int], flags@[i as int], taxonomy_id@, category_id@, strings(mids@), weight_views(wm@)));
        match w {
            Some(x) => {
                let ghost before = positions(out@);
                out.push((i, x));
                assert(positions(out@) =~= before.push((i as int, x)));
            },
            None => {},
        }
        i = i + 1;
    }
    out
}

pub open spec fn positions(v: Seq<(usize, i32)>) -> Seq<(int, i32)> {
    v.map_values(|e: (usize, i32)| (e.0 as int, e.1))
}

fn weighted_value_checked(mv: Dec, w: i32) -> (r: Option<Dec>)
    requires
        mv.valid(),
    ensures
        r == weighted_checked(mv, w),
        r matches Some(d) ==> d.valid(),
{
    let wf = Dec { mantissa: w as i128, scale: 0 };
    let basis = Dec { mantissa: 10000, scale: 0 };
    assert(wf.valid());
    match dec_checked_div(wf, basis) {
        Some(q) => dec_checked_mul(mv, q),
        None => None,
    }
}

fn share_checked(wv: Dec, total: Dec) -> (r: Option<Dec>)
    requires
        wv.valid(),
        total.valid(),
    ensures
        r == share_of(wv, total),
{
    let zero = Dec::zero();
    if dec_lt(zero, total) {
        match dec_checked_div(wv, total) {
            Some(q) => {
                let hundred = Dec { mantissa: 100, scale: 0 };
                match dec_checked_mul(q, hundred) {
                    Some(x) => Some(dec_round_dp(x, 2)),
                    None => None,
                }
            },
            None => None,
        }
    } else {
        Some(zero)
    }
}

pub open spec fn taxonomy_option(t: Option<TaxonomyWithCategories>) -> Option<(Seq<char>, Seq<char>, Seq<CatView>)> {
    match t {
        Some(x) => Some((x.taxonomy.name@, x.taxonomy.color@, cat_views(x.categories@))),
        None => None,
    }
}

fn first_category_index(cats: &Vec<Category>, id: &str) -> (r: Option<usize>)
    ensures
        match r {
            Some(i) => i < cats@.len() && first_category(cat_views(cats@), id@, cats@.len() as int) == Some(
                cat_views(cats@)[i as int],
            ),
            None => first_category(cat_views(cats@), id@, cats@.len() as int) is None,
        },
{
    let ghost cv = cat_views(cats@);
    let mut i: usize = 0;
    while i < cats.len()
        invariant
            cv == cat_views(cats@),
            i <= cats@.len(),
            first_category(cv, id@, i as int) is None,
        decreases cats.len() - i,
    {
        if str_eq(cats[i].id.as_str(), id) {
            proof {
                assert(first_category(cv, id@, i + 1) == Some(cv[i as int]));
                lemma_first_category_stays(cv, id@, i + 1, cats@.len() as int);
            }
            return Some(i);
        }
        i = i + 1;
    }
    None
}

proof fn lemma_first_category_stays(cats: Seq<CatView>, id: Seq<char>, j: int, k: int)
    requires
        0 <= j <= k,
        first_category(cats, id, j) is Some,
    ensures
        first_category(cats, id, k) == first_category(cats, id, j),
    decreases k,
{
    if k > j {
        lemma_first_category_stays(cats, id, j, k - 1);
    }
}

proof fn lemma_matched_have_assets(
    hs: Seq<DrillView>,
    flags: Seq<bool>,
    tid: Seq<char>,
    cid: Seq<char>,
    mids: Seq<Seq<char>>,
    wm: Seq<WeightEntry>,
    k: int,
)
    requires
        0 <= k <= hs.len(),
        flags.len() == hs.len(),
    ensures
        forall|j: int|
            0 <= j < matched_holdings(hs, flags, tid, cid, mids, wm, k).len() ==> (#[trigger] hs[matched_holdings(
                hs,
                flags,
                tid,
                cid,
                mids,
                wm,
                k,
            )[j].0]).2 is Some,
    decreases k,
{
    if k > 0 {
        lemma_matched_have_assets(hs, flags, tid, cid, mids, wm, k - 1);
        let prev = matched_holdings(hs, flags, tid, cid, mids, wm, k - 1);
        let cur = matched_holdings(hs, flags, tid, cid, mids, wm, k);
        assert forall|j: int| 0 <= j < cur.len() implies (#[trigger] hs[cur[j].0]).2 is Some by {
            if j < prev.len() {
                assert(cur[j] == prev[j]);
            }
        }
    }
}

proof fn lemma_total_none_stays(hs: Seq<DrillView>, m: Seq<(int, i32)>, j: int, k: int)
    requires
        0 <= j <= k,
        matched_total(hs, m, j) is None,
    ensures
        matched_total(hs, m, k) is None,
    decreases k,
{
    if k > j {
        lemma_total_none_stays(hs, m, j, k - 1);
    }
}

proof fn lemma_summaries_none_stays(hs: Seq<DrillView>, m: Seq<(int, i32)>, total: Dec, j: int, k: int)
    requires
        0 <= j <= k,
        summaries(hs, m, total, j) is None,
    ensures
        summaries(hs, m, total, k) is None,
    decreases k,
{
    if k > j {
        lemma_summaries_none_stays(hs, m, total, j, k - 1);
    }
}

/// The holdings of category `category_id` of taxonomy `taxonomy_id`
/// (`taxonomy` is the taxonomy with its categories, if found; `matching`
/// the categories the drill-down covers, see [`matching_category_ids`];
/// `assignments` the assets' weights in those categories, category by
/// category; `has_assignment` whether each holding's asset has any
/// assignment in the taxonomy). Each matched holding counts with its
/// weighted value and its share of the matched total, largest first.
/// Nothing where rust_decimal's checked arithmetic would overflow.
pub fn holdings_by_allocation(
    holdings: &Vec<DrillHolding>,
    has_assignment: &Vec<bool>,
    taxonomy_id: &str,
    category_id: &str,
    base_currency: &str,
    taxonomy: &Option<TaxonomyWithCategories>,
    matching: &Vec<String>,
    assignments: &Vec<CategoryAssignment>,
) -> (r: Option<AllocationHoldings>)
    requires
        has_assignment@.len() == holdings@.len(),
        forall|i: int| 0 <= i < holdings@.len() ==> (#[trigger] holdings@[i]).market_value.valid(),
    ensures
        match r {
            Some(x) => drill_down(
                drill_views(holdings@),
                has_assignment@,
                taxonomy_id@,
                category_id@,
                base_currency@,
                taxonomy_option(*taxonomy),
                strings(matching@),
                assignment_views(assignments@),
            ) == Some(x@),
            None => drill_down(
                drill_views(holdings@),
                has_assignment@,
                taxonomy_id@,
                category_id@,
                base_currency@,
                taxonomy_option(*taxonomy),
                strings(matching@),
                assignment_views(assignments@),
            ) is None,
        },
{
    let ghost hv = drill_views(holdings@);
    let empty_cats: Vec<Category> = Vec::new();
    let (taxonomy_name, taxonomy_color, cats) = match taxonomy {
        Some(t) => (t.taxonomy.name.clone(), t.taxonomy.color.clone(), &t.categories),
        None => (owned("Unknown"), owned("#808080"), &empty_cats),
    };
    assert(cat_views(empty_cats@) =~= Seq::<CatView>::empty());
    let (category_name, category_color) = if str_eq(category_id, "__UNKNOWN__") {
        (owned("Unknown"), owned("#878580"))
    } else {
        match first_category_index(cats, category_id) {
            Some(i) => (cats[i].name.clone(), cats[i].color.clone()),
            None => (owned(category_id), taxonomy_color.clone()),
        }
    };
    if holdings.len() == 0 {
        let r = AllocationHoldings {
            taxonomy_id: owned(taxonomy_id),
            taxonomy_name,
            category_id: owned(category_id),
            category_name,
            color: category_color,
            holdings: Vec::new(),
            total_value: Dec::zero(),
            currency: owned(base_currency),
        };
        assert(summary_views(r.holdings@) =~= Seq::<SummaryView>::empty());
        return Some(r);
    }
    let wm = match total_weights(assignments) {
        Some(m) => m,
        None => {
            return None;
        },
    };
    let m = matched(holdings, has_assignment, taxonomy_id, category_id, matching, &wm);
    let ghost mv = positions(m@);
    proof {
        lemma_matched_have_assets(hv, has_assignment@, taxonomy_id@, category_id@, strings(matching@), weight_views(wm@), hv.len() as int);
        assert forall|j: int| 0 <= j < m@.len() implies (#[trigger] hv[m@[j].0 as int]).2 is Some by {
            assert(mv[j].0 == m@[j].0 as int);
        }
    }
    let mut total = Dec::zero();
    let mut k: usize = 0;
    while k < m.len()
        invariant
            hv == drill_views(holdings@),
            mv == positions(m@),
            forall|i: int| 0 <= i < holdings@.len() ==> (#[trigger] holdings@[i]).market_value.valid(),
            forall|j: int| 0 <= j < m@.len() ==> (#[trigger] m@[j]).0 < holdings@.len(),
            holdings@.len() > 0,
            asset_weights(assignment_views(assignments@), assignments@.len() as int) == Some(weight_views(wm@)),
            mv == matched_holdings(hv, has_assignment@, taxonomy_id@, category_id@, strings(matching@), weight_views(wm@), hv.len() as int),
            k <= m@.len(),
            matched_total(hv, mv, k as int) == Some(total),
            total.valid(),
        decreases m.len() - k,
    {
        let (idx, w) = m[k];
        assert(hv[idx as int].6 == holdings@[idx as int].market_value);
        assert(mv[k as int] == (idx as int, w));
        match weighted_value_checked(holdings[idx].market_value, w) {
            Some(wv) => {
                match dec_checked_add(total, wv) {
                    Some(t) => {
                        total = t;
                    },
                    None => {
                        proof {
                            lemma_total_none_stays(hv, mv, k + 1, mv.len() as int);
                        }
                        return None;
                    },
                }
            },
            None => {
                proof {
                    lemma_total_none_stays(hv, mv, k + 1, mv.len() as int);
                }
                return None;
            },
        }
        k = k + 1;
    }
    let mut out: Vec<HoldingSummary> = Vec::new();
    let ghost mut ss: Seq<SummaryView> = Seq::empty();
    let mut k: usize = 0;
    while k < m.len()
        invariant
            hv == drill_views(holdings@),
            mv == positions(m@),
            forall|i: int| 0 <= i < holdings@.len() ==> (#[trigger] holdings@[i]).market_value.valid(),
            forall|j: int| 0 <= j < m@.len() ==> (#[trigger] m@[j]).0 < holdings@.len(),
            forall|j: int| 0 <= j < m@.len() ==> (#[trigger] hv[m@[j].0 as int]).2 is Some,
            holdings@.len() > 0,
            asset_weights(assignment_views(assignments@), assignments@.len() as int) == Some(weight_views(wm@)),
            mv == matched_holdings(hv, has_assignment@, taxonomy_id@, category_id@, strings(matching@), weight_views(wm@), hv.len() as int),
            matched_total(hv, mv, mv.len() as int) == Some(total),
            k <= m@.len(),
            total.valid(),
            summaries(hv, mv, total, k as int) == Some(ss),
            forall|j: int| 0 <= j < out@.len() ==> (#[trigger] out@[j]).market_value.valid(),
            summary_views(out@) == crate::sorting::isort(ss, summary_before()),
        decreases m.len() - k,
    {
        let (idx, w) = m[k];
        let h = &holdings[idx];
        assert(mv[k as int] == (idx as int, w));
        assert(hv[idx as int] == (h.id@, h.holding_type, opt_chars(h.asset_id), h.symbol@, opt_chars(h.name), h.quantity, h.market_value, h.base_currency@));
        let wv = match weighted_value_checked(h.market_value, w) {
            Some(v) => v,
            None => {
                proof {
                    lemma_summaries_none_stays(hv, mv, total, k + 1, mv.len() as int);
                }
                return None;
            },
        };
        let share = match share_checked(wv, total) {
            Some(x) => x,
            None => {
                proof {
                    lemma_summaries_none_stays(hv, mv, total, k + 1, mv.len() as int);
                }
                return None;
            },
        };
        let id = match &h.asset_id {
            Some(a) => a.clone(),
            None => h.id.clone(),
        };
        let x = HoldingSummary {
            id,
            symbol: h.symbol.clone(),
            name: match &h.name {
                Some(n) => Some(n.clone()),
                None => None,
            },
            holding_type: h.holding_type,
            quantity: h.quantity,
            market_value: wv,
            currency: h.base_currency.clone(),
            weight_in_category: share,
        };
        let ghost xv = (x.id@, x.symbol@, opt_chars(x.name), x.holding_type, x.quantity, x.market_value, x.currency@, x.weight_in_category);
        assert(summary_at(hv, mv, total, k as int) == Some(xv));
        let mut p: usize = out.len();
        while p > 0 && dec_lt(out[p - 1].market_value, x.market_value)
            invariant
                p <= out@.len(),
                x.market_value.valid(),
                forall|j: int| 0 <= j < out@.len() ==> (#[trigger] out@[j]).market_value.valid(),
                forall|t: int| p <= t < out@.len() ==> (summary_before())(xv, #[trigger] summary_views(out@)[t]),
                xv.5 == x.market_value,
            decreases p,
        {
            p = p - 1;
        }
        let ghost before = summary_views(out@);
        proof {
            crate::sorting::lemma_ins_at(before, xv, summary_before(), p as int);
            let prev = ss;
            ss = ss.push(xv);
            assert(ss.drop_last() =~= prev);
        }
        out.insert(p, x);
        assert(summary_views(out@) =~= before.take(p as int).push(xv) + before.skip(p as int));
        k = k + 1;
    }
    Some(
        AllocationHoldings {
            taxonomy_id: owned(taxonomy_id),
            taxonomy_name,
            category_id: owned(category_id),
            category_name,
            color: category_color,
            holdings: out,
            total_value: total,
            currency: owned(base_currency),
        },
    )
}

/// The sum of the weights of asset `aid` among the first `k` assignments.
pub open spec fn weight_sum(entries: Seq<WeightEntry>, aid: Seq<char>, k: int) -> int
    decreases k,
{
    if k <= 0 {
        0
    } else {
        weight_sum(entries, aid, k - 1) + if entries[k - 1].0 == aid {
            entries[k - 1].1 as int
        } else {
            0
        }
    }
}

proof fn lemma_weight_index_found(m: Seq<WeightEntry>, aid: Seq<char>, k: int)
    requires
        0 <= k <= m.len(),
    ensures
        weight_index(m, aid, k) >= 0 ==> weight_index(m, aid, k) < k && m[weight_index(m, aid, k)].0 == aid,
        weight_index(m, aid, k) < 0 ==> forall|l: int| 0 <= l < k ==> (#[trigger] m[l]).0 != aid,
    decreases k,
{
    if k > 0 {
        lemma_weight_index_found(m, aid, k - 1);
    }
}

/// Each asset's weight in the category is the sum of the weights of all
/// its assignments: every asset assigned among the first `k` assignments
/// has exactly one entry, holding that sum, and every entry is such an
/// asset.
pub proof fn lemma_asset_weights_sum(entries: Seq<WeightEntry>, k: int)
    requires
        0 <= k <= entries.len(),
        asset_weights(entries, k) is Some,
    ensures
        ({
            let m = asset_weights(entries, k).unwrap();
            &&& forall|i: int| 0 <= i < m.len() ==> (#[trigger] m[i]).1 == weight_sum(entries, m[i].0, k)
            &&& forall|i: int, l: int| 0 <= i < l < m.len() ==> (#[trigger] m[i]).0 != (#[trigger] m[l]).0
            &&& forall|j: int| 0 <= j < k ==> exists|i: int| 0 <= i < m.len() && (#[trigger] m[i]).0 == (#[trigger] entries[j]).0
            &&& forall|i: int| 0 <= i < m.len() ==> exists|j: int| 0 <= j < k && (#[trigger] m[i]).0 == (#[trigger] entries[j]).0
        }),
    decreases k,
{
    if k > 0 {
        lemma_asset_weights_sum(entries, k - 1);
        let m = asset_weights(entries, k - 1).unwrap();
        let aid = entries[k - 1].0;
        let w = entries[k - 1].1;
        let i = weight_index(m, aid, m.len() as int);
        lemma_weight_index_found(m, aid, m.len() as int);
        let m2 = asset_weights(entries, k).unwrap();
        if i >= 0 {
            assert(m2 == m.update(i, (aid, (m[i].1 + w) as i32)));
            assert forall|x: int| 0 <= x < m2.len() implies (#[trigger] m2[x]).1 == weight_sum(entries, m2[x].0, k) by {
                if x != i {
                    assert(m[x].0 != m[i].0);
                    assert(m2[x] == m[x]);
                }
            }
            assert forall|j: int| 0 <= j < k implies exists|x: int| 0 <= x < m2.len() && (#[trigger] m2[x]).0 == (#[trigger] entries[j]).0 by {
                if j < k - 1 {
                    let x = choose|x: int| 0 <= x < m.len() && (#[trigger] m[x]).0 == entries[j].0;
                    assert(m2[x].0 == m[x].0);
                } else {
                    assert(m2[i].0 == aid);
                }
            }
            assert forall|x: int| 0 <= x < m2.len() implies exists|j: int| 0 <= j < k && (#[trigger] m2[x]).0 == (#[trigger] entries[j]).0 by {
                assert(m2[x].0 == m[x].0);
                let j = choose|j: int| 0 <= j < k - 1 && (#[trigger] m[x]).0 == (#[trigger] entries[j]).0;
                assert(entries[j].0 == m2[x].0);
            }
        } else {
            assert(m2 == m.push((aid, w)));
            assert(weight_sum(entries, aid, k - 1) == 0) by {
                if weight_sum(entries, aid, k - 1) != 0 {
                    lemma_weight_sum_present(entries, aid, k - 1);
                    let j = choose|j: int| 0 <= j < k - 1 && (#[trigger] entries[j]).0 == aid;
                    let x = choose|x: int| 0 <= x < m.len() && (#[trigger] m[x]).0 == entries[j].0;
                    assert(m[x].0 != aid);
                }
            }
            assert forall|x: int| 0 <= x < m2.len() implies (#[trigger] m2[x]).1 == weight_sum(entries, m2[x].0, k) by {
                if x < m.len() {
                    assert(m2[x] == m[x]);
                    assert(m[x].0 != aid);
                }
            }
            assert forall|x: int, l: int| 0 <= x < l < m2.len() implies (#[trigger] m2[x]).0 != (#[trigger] m2[l]).0 by {
                if l == m.len() {
                    assert(m2[x] == m[x]);
                } else {
                    assert(m2[x] == m[x] && m2[l] == m[l]);
                }
            }
            assert forall|j: int| 0 <= j < k implies exists|x: int| 0 <= x < m2.len() && (#[trigger] m2[x]).0 == (#[trigger] entries[j]).0 by {
                if j < k - 1 {
                    let x = choose|x: int| 0 <= x < m.len() && (#[trigger] m[x]).0 == entries[j].0;
                    assert(m2[x] == m[x]);
                } else {
                    assert(m2[m.len() as int].0 == aid);
                }
            }
            assert forall|x: int| 0 <= x < m2.len() implies exists|j: int| 0 <= j < k && (#[trigger] m2[x]).0 == (#[trigger] entries[j]).0 by {
                if x < m.len() {
                    assert(m2[x] == m[x]);
                    let j = choose|j: int| 0 <= j < k - 1 && (#[trigger] m[x]).0 == (#[trigger] entries[j]).0;
                } else {
                    assert(entries[k - 1].0 == m2[x].0);
                }
            }
        }
    }
}

proof fn lemma_weight_sum_present(entries: Seq<WeightEntry>, aid: Seq<char>, k: int)
    requires
        weight_sum(entries, aid, k) != 0,
    ensures
        exists|j: int| 0 <= j < k && (#[trigger] entries[j]).0 == aid,
    decreases k,
{
    if k > 0 {
        if entries[k - 1].0 == aid {
            assert(entries[k - 1].0 == aid);
        } else {
            lemma_weight_sum_present(entries, aid, k - 1);
            let j = choose|j: int| 0 <= j < k - 1 && (#[trigger] entries[j]).0 == aid;
            assert(0 <= j < k);
        }
    }
}

} // verus!
