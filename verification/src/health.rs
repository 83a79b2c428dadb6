//! Portfolio health: a 0–100 score, higher is healthier, the equal-weighted
//! average of four drivers, each 0–100:
//! - concentration: `100 * (1 - top_holding_share)`;
//! - FX exposure: `100 * (1 - non_base_share)`;
//! - cash drag: 100 up to a 20% cash share, then falling linearly to 0 at
//!   100% cash;
//! - allocation drift: `100 * (1 - Σ|actual - target| / 2)`, the drift held
//!   between 0 and 1; 100 when no target is set.
//!
//! The lowest driver is called out. A heuristic, not financial advice.
use vstd::prelude::*;

use crate::decimal::{
    add_checked, c_add, c_div, c_mul, c_sub, dec_abs, dec_lt, dec_text, decimal_text, div_checked, mul_checked,
    round_dp, round_to, sub_checked, abs_int, Dec,
};
use crate::sorting::{
    isort, lemma_isort_elements, lemma_isort_keeps, lemma_isort_sorted, lemma_string_orders_total, lemma_total_is_weak,
    sort_strings, sorted_by, str_lt, str_lt_fn, strict_total,
};
use crate::text::{opt_chars, owned, push_str, str_eq};
use crate::tools::common::strings_view;

verus! {

/// One position, its value already in the base currency.
pub struct HealthPosition {
    pub label: String,
    /// Asset class tag ("EQUITY", "BOND", "CASH", ...).
    pub asset_class: String,
    pub value_base: Dec,
    /// Trades in a currency other than the base.
    pub is_foreign_currency: bool,
    /// A cash or bank balance: always counts toward cash drag.
    pub is_cash: bool,
}

/// Target weight per asset class, as a fraction of 1. A class is looked up
/// by its first entry.
pub type TargetAllocation = Vec<(String, Dec)>;

pub struct HealthInputs {
    pub positions: Vec<HealthPosition>,
    /// May be empty: the drift driver then scores 100.
    pub target_allocation: TargetAllocation,
    pub base_currency: Option<String>,
}

/// One driver: its 0–100 score and the metric behind it (a fraction of 1).
pub struct HealthDriver {
    pub id: String,
    pub label: String,
    pub score: Dec,
    pub metric: Dec,
    pub note: String,
}

pub struct HealthReport {
    /// `None` for an empty portfolio (or one whose total is not positive).
    pub score: Option<Dec>,
    pub drivers: Vec<HealthDriver>,
    /// The lowest-scoring driver (the first of equals).
    pub worst_driver: Option<HealthDriver>,
    pub base_currency: Option<String>,
    pub notes: Vec<String>,
}

pub ghost struct PositionView {
    pub class: Seq<char>,
    pub value: Dec,
    pub foreign: bool,
    pub cash: bool,
}

pub ghost struct DriverView {
    pub id: Seq<char>,
    pub label: Seq<char>,
    pub score: Dec,
    pub metric: Dec,
    pub note: Seq<char>,
}

pub ghost struct ReportView {
    pub score: Option<Dec>,
    pub drivers: Seq<DriverView>,
    pub worst: Option<DriverView>,
    pub base_currency: Option<Seq<char>>,
    pub notes: Seq<Seq<char>>,
}

impl HealthPosition {
    pub open spec fn view(&self) -> PositionView {
        PositionView {
            class: self.asset_class@,
            value: self.value_base,
            foreign: self.is_foreign_currency,
            cash: self.is_cash,
        }
    }
}

impl HealthDriver {
    pub open spec fn view(&self) -> DriverView {
        DriverView { id: self.id@, label: self.label@, score: self.score, metric: self.metric, note: self.note@ }
    }
}

pub open spec fn drivers_view(ds: Seq<HealthDriver>) -> Seq<DriverView> {
    ds.map_values(|d: HealthDriver| d@)
}

pub open spec fn opt_driver(d: Option<HealthDriver>) -> Option<DriverView> {
    match d {
        Some(x) => Some(x@),
        None => None,
    }
}

impl HealthReport {
    pub open spec fn view(&self) -> ReportView {
        ReportView {
            score: self.score,
            drivers: drivers_view(self.drivers@),
            worst: opt_driver(self.worst_driver),
            base_currency: opt_chars(self.base_currency),
            notes: strings_view(self.notes@),
        }
    }
}

pub open spec fn positions_view(ps: Seq<HealthPosition>) -> Seq<PositionView> {
    ps.map_values(|p: HealthPosition| p@)
}

pub open spec fn target_view(t: Seq<(String, Dec)>) -> Seq<(Seq<char>, Dec)> {
    t.map_values(|e: (String, Dec)| (e.0@, e.1))
}

/// Every figure is one rust_decimal can hold.
pub open spec fn inputs_valid(inputs: HealthInputs) -> bool {
    &&& forall|i: int| 0 <= i < inputs.positions@.len() ==> (#[trigger] inputs.positions@[i]).value_base.valid()
    &&& forall|i: int|
        0 <= i < inputs.target_allocation@.len() ==> (#[trigger] inputs.target_allocation@[i]).1.valid()
}

pub open spec fn fig(m: i128, s: u32) -> Dec {
    Dec { mantissa: m, scale: s }
}

/// Which positions a sum takes.
pub enum Pick {
    All,
    Foreign,
    Cash,
    Class,
}

pub open spec fn picked(pick: Pick, class: Seq<char>, p: PositionView) -> bool {
    match pick {
        Pick::All => true,
        Pick::Foreign => p.foreign,
        Pick::Cash => p.cash,
        Pick::Class => p.class == class,
    }
}

/// The values of the picked positions summed in order from zero with
/// rust_decimal's checked `+` (`None` where a sum overflows).
pub open spec fn sum_where(ps: Seq<PositionView>, pick: Pick, class: Seq<char>) -> Option<Dec>
    decreases ps.len(),
{
    if ps.len() == 0 {
        Some(fig(0, 0))
    } else {
        let prior = sum_where(ps.drop_last(), pick, class);
        if picked(pick, class, ps.last()) {
            match prior {
                Some(s) => c_add(s, ps.last().value),
                None => None,
            }
        } else {
            prior
        }
    }
}

fn sum_picked(ps: &Vec<HealthPosition>, pick: Pick, class: &str) -> (r: Option<Dec>)
    requires
        forall|i: int| 0 <= i < ps@.len() ==> (#[trigger] ps@[i]).value_base.valid(),
    ensures
        r == sum_where(positions_view(ps@), pick, class@),
        r matches Some(d) ==> d.valid(),
{
    let ghost pv = positions_view(ps@);
    let mut acc: Option<Dec> = Some(Dec::zero());
    let mut i: usize = 0;
    assert(pv.take(0).len() == 0);
    while i < ps.len()
        invariant
            pv == positions_view(ps@),
            i <= ps.len(),
            forall|j: int| 0 <= j < ps@.len() ==> (#[trigger] ps@[j]).value_base.valid(),
            acc == sum_where(pv.take(i as int), pick, class@),
            acc matches Some(d) ==> d.valid(),
        decreases ps.len() - i,
    {
        let p = &ps[i];
        let take = match pick {
            Pick::All => true,
            Pick::Foreign => p.is_foreign_currency,
            Pick::Cash => p.is_cash,
            Pick::Class => str_eq(p.asset_class.as_str(), class),
        };
        assert(pv.take(i + 1).drop_last() =~= pv.take(i as int));
        assert(pv.take(i + 1).last() == pv[i as int]);
        if take {
            acc = match acc {
                Some(s) => add_checked(s, p.value_base),
                None => None,
            };
        }
        i = i + 1;
    }
    assert(pv.take(ps.len() as int) =~= pv);
    acc
}

/// The largest value (the last of equals), zero when there is none.
pub open spec fn top_value(ps: Seq<PositionView>) -> Dec
    decreases ps.len(),
{
    if ps.len() == 0 {
        fig(0, 0)
    } else if ps.len() == 1 {
        ps[0].value
    } else {
        let t = top_value(ps.drop_last());
        if ps.last().value.units() < t.units() {
            t
        } else {
            ps.last().value
        }
    }
}

fn top_of(ps: &Vec<HealthPosition>) -> (r: Dec)
    requires
        forall|i: int| 0 <= i < ps@.len() ==> (#[trigger] ps@[i]).value_base.valid(),
    ensures
        r == top_value(positions_view(ps@)),
        r.valid(),
{
    let ghost pv = positions_view(ps@);
    if ps.len() == 0 {
        return Dec::zero();
    }
    let mut top = ps[0].value_base;
    let mut i: usize = 1;
    assert(pv.take(1).len() == 1);
    while i < ps.len()
        invariant
            pv == positions_view(ps@),
            1 <= i <= ps.len(),
            forall|j: int| 0 <= j < ps@.len() ==> (#[trigger] ps@[j]).value_base.valid(),
            top == top_value(pv.take(i as int)),
            top.valid(),
        decreases ps.len() - i,
    {
        let v = ps[i].value_base;
        assert(pv.take(i + 1).drop_last() =~= pv.take(i as int));
        assert(pv.take(i + 1).last() == pv[i as int]);
        if !dec_lt(v, top) {
            top = v;
        }
        i = i + 1;
    }
    assert(pv.take(ps.len() as int) =~= pv);
    top
}


/// `clamp(round_dp(d, 2), 0, 100)`.
pub open spec fn clamp_score(d: Dec) -> Dec {
    let r = round_to(d, 2);
    if r.units() < 0 {
        fig(0, 0)
    } else if fig(100, 0).units() < r.units() {
        fig(100, 0)
    } else {
        r
    }
}

/// `clamp(round_dp((1 - share) * 100, 2), 0, 100)`.
pub open spec fn complement_score(share: Dec) -> Option<Dec> {
    match c_sub(fig(1, 0), share) {
        Some(d) => match c_mul(d, fig(100, 0)) {
            Some(e) => Some(clamp_score(e)),
            None => None,
        },
        None => None,
    }
}

/// `round_dp(share * 100, dp)`.
pub open spec fn percent(share: Dec, dp: u32) -> Option<Dec> {
    match c_mul(share, fig(100, 0)) {
        Some(p) => Some(round_to(p, dp)),
        None => None,
    }
}

pub open spec fn share_of(sum: Option<Dec>, total: Dec) -> Option<Dec> {
    match sum {
        Some(s) => c_div(s, total),
        None => None,
    }
}

/// A driver scored `100 * (1 - share)`, its note the share as a percentage
/// between `lead` and `tail`.
pub open spec fn share_driver(
    id: Seq<char>,
    label: Seq<char>,
    share: Option<Dec>,
    lead: Seq<char>,
    tail: Seq<char>,
) -> Option<DriverView> {
    match share {
        Some(s) => match (complement_score(s), percent(s, 1)) {
            (Some(score), Some(pct)) => Some(
                DriverView { id, label, score, metric: round_to(s, 4), note: lead + decimal_text(pct.pair()) + tail },
            ),
            _ => None,
        },
        None => None,
    }
}

pub open spec fn concentration(ps: Seq<PositionView>, total: Dec) -> Option<DriverView> {
    share_driver(
        "concentration"@,
        "Concentration"@,
        c_div(top_value(ps), total),
        "Top position is "@,
        "% of the portfolio."@,
    )
}

pub open spec fn fx_exposure(ps: Seq<PositionView>, total: Dec) -> Option<DriverView> {
    share_driver(
        "fxExposure"@,
        "FX exposure"@,
        share_of(sum_where(ps, Pick::Foreign, Seq::empty()), total),
        Seq::empty(),
        "% of the portfolio is in non-base currencies."@,
    )
}

/// 20%.
pub open spec fn cash_target() -> Dec {
    fig(20, 2)
}

/// 100 at or below the cash target; above it
/// `100 * (1 - (share - target) / (1 - target))`, rounded and held in 0..100.
pub open spec fn cash_score(share: Dec) -> Option<Dec> {
    if share.units() <= cash_target().units() {
        Some(fig(100, 0))
    } else {
        match c_sub(share, cash_target()) {
            Some(excess) => match c_sub(fig(1, 0), cash_target()) {
                Some(room) => match c_div(excess, room) {
                    Some(q) => complement_score(q),
                    None => None,
                },
                None => None,
            },
            None => None,
        }
    }
}

pub open spec fn cash_drag(ps: Seq<PositionView>, total: Dec) -> Option<DriverView> {
    match share_of(sum_where(ps, Pick::Cash, Seq::empty()), total) {
        Some(s) => match (cash_score(s), percent(s, 1), percent(cash_target(), 0)) {
            (Some(score), Some(pct), Some(tp)) => Some(
                DriverView {
                    id: "cashDrag"@,
                    label: "Cash drag"@,
                    score,
                    metric: round_to(s, 4),
                    note: decimal_text(pct.pair()) + "% in cash (target ≤ "@ + decimal_text(tp.pair()) + "%)."@,
                },
            ),
            _ => None,
        },
        None => None,
    }
}

fn hundred() -> (r: Dec)
    ensures
        r == fig(100, 0),
        r.valid(),
{
    Dec { mantissa: 100, scale: 0 }
}

fn one() -> (r: Dec)
    ensures
        r == fig(1, 0),
        r.valid(),
{
    Dec { mantissa: 1, scale: 0 }
}

fn clamp_exec(d: Dec) -> (r: Dec)
    requires
        d.valid(),
    ensures
        r == clamp_score(d),
        r.valid(),
{
    let x = round_dp(d, 2);
    let zero = Dec::zero();
    let top = hundred();
    if dec_lt(x, zero) {
        zero
    } else if dec_lt(top, x) {
        top
    } else {
        x
    }
}

fn complement_exec(share: Dec) -> (r: Option<Dec>)
    requires
        share.valid(),
    ensures
        r == complement_score(share),
        r matches Some(d) ==> d.valid(),
{
    match sub_checked(one(), share) {
        Some(d) => match mul_checked(d, hundred()) {
            Some(e) => Some(clamp_exec(e)),
            None => None,
        },
        None => None,
    }
}

fn percent_exec(share: Dec, dp: u32) -> (r: Option<Dec>)
    requires
        share.valid(),
        dp <= 28,
    ensures
        r == percent(share, dp),
        r matches Some(d) ==> d.valid(),
{
    match mul_checked(share, hundred()) {
        Some(p) => Some(round_dp(p, dp)),
        None => None,
    }
}

fn share_of_exec(sum: Option<Dec>, total: Dec) -> (r: Option<Dec>)
    requires
        sum matches Some(s) ==> s.valid(),
        total.valid(),
    ensures
        r == share_of(sum, total),
        r matches Some(d) ==> d.valid(),
{
    match sum {
        Some(s) => div_checked(s, total),
        None => None,
    }
}

fn share_driver_exec(id: &str, label: &str, share: Option<Dec>, lead: &str, tail: &str) -> (r: Option<HealthDriver>)
    requires
        share matches Some(s) ==> s.valid(),
    ensures
        opt_driver(r) == share_driver(id@, label@, share, lead@, tail@),
        r matches Some(d) ==> d.score.valid(),
{
    match share {
        Some(s) => {
            let score = complement_exec(s);
            let pct = percent_exec(s, 1);
            match (score, pct) {
                (Some(score), Some(pct)) => {
                    let mut note = owned(lead);
                    let text = dec_text(pct);
                    push_str(&mut note, text.as_str());
                    push_str(&mut note, tail);
                    Some(
                        HealthDriver {
                            id: owned(id),
                            label: owned(label),
                            score,
                            metric: round_dp(s, 4),
                            note,
                        },
                    )
                },
                _ => None,
            }
        },
        None => None,
    }
}

fn cash_score_exec(share: Dec) -> (r: Option<Dec>)
    requires
        share.valid(),
    ensures
        r == cash_score(share),
        r matches Some(d) ==> d.valid(),
{
    let target = Dec { mantissa: 20, scale: 2 };
    if !dec_lt(target, share) {
        Some(hundred())
    } else {
        match sub_checked(share, target) {
            Some(excess) => match sub_checked(one(), target) {
                Some(room) => match div_checked(excess, room) {
                    Some(q) => complement_exec(q),
                    None => None,
                },
                None => None,
            },
            None => None,
        }
    }
}

fn cash_drag_exec(ps: &Vec<HealthPosition>, total: Dec) -> (r: Option<HealthDriver>)
    requires
        forall|i: int| 0 <= i < ps@.len() ==> (#[trigger] ps@[i]).value_base.valid(),
        total.valid(),
    ensures
        opt_driver(r) == cash_drag(positions_view(ps@), total),
        r matches Some(d) ==> d.score.valid(),
{
    let share = share_of_exec(sum_picked(ps, Pick::Cash, ""), total);
    proof {
        reveal_strlit("");
        assert(""@ =~= Seq::<char>::empty());
    }
    match share {
        Some(s) => {
            let target = Dec { mantissa: 20, scale: 2 };
            match (cash_score_exec(s), percent_exec(s, 1), percent_exec(target, 0)) {
                (Some(score), Some(pct), Some(tp)) => {
                    let mut note = dec_text(pct);
                    push_str(&mut note, "% in cash (target ≤ ");
                    let t = dec_text(tp);
                    push_str(&mut note, t.as_str());
                    push_str(&mut note, "%).");
                    Some(
                        HealthDriver {
                            id: owned("cashDrag"),
                            label: owned("Cash drag"),
                            score,
                            metric: round_dp(s, 4),
                            note,
                        },
                    )
                },
                _ => None,
            }
        },
        None => None,
    }
}

fn concentration_exec(ps: &Vec<HealthPosition>, total: Dec) -> (r: Option<HealthDriver>)
    requires
        forall|i: int| 0 <= i < ps@.len() ==> (#[trigger] ps@[i]).value_base.valid(),
        total.valid(),
    ensures
        opt_driver(r) == concentration(positions_view(ps@), total),
        r matches Some(d) ==> d.score.valid(),
{
    let top = top_of(ps);
    share_driver_exec(
        "concentration",
        "Concentration",
        div_checked(top, total),
        "Top position is ",
        "% of the portfolio.",
    )
}

fn fx_exposure_exec(ps: &Vec<HealthPosition>, total: Dec) -> (r: Option<HealthDriver>)
    requires
        forall|i: int| 0 <= i < ps@.len() ==> (#[trigger] ps@[i]).value_base.valid(),
        total.valid(),
    ensures
        opt_driver(r) == fx_exposure(positions_view(ps@), total),
        r matches Some(d) ==> d.score.valid(),
{
    let share = share_of_exec(sum_picked(ps, Pick::Foreign, ""), total);
    proof {
        reveal_strlit("");
        assert(""@ =~= Seq::<char>::empty());
    }
    share_driver_exec("fxExposure", "FX exposure", share, "", "% of the portfolio is in non-base currencies.")
}

/// The target's classes followed by the positions' classes.
pub open spec fn key_list(target: Seq<(Seq<char>, Dec)>, ps: Seq<PositionView>) -> Seq<Seq<char>> {
    target.map_values(|e: (Seq<char>, Dec)| e.0) + ps.map_values(|p: PositionView| p.class)
}

/// `s` with each run of equal neighbours kept once.
pub open spec fn dedup_adjacent(s: Seq<Seq<char>>) -> Seq<Seq<char>>
    decreases s.len(),
{
    if s.len() == 0 {
        s
    } else {
        let d = dedup_adjacent(s.drop_last());
        if d.len() > 0 && d.last() == s.last() {
            d
        } else {
            d.push(s.last())
        }
    }
}

/// Every class of the target or of the positions, once each, in string
/// order.
pub open spec fn classes(target: Seq<(Seq<char>, Dec)>, ps: Seq<PositionView>) -> Seq<Seq<char>> {
    dedup_adjacent(isort(key_list(target, ps), str_lt_fn()))
}

/// The target weight of a class: its first entry's, zero without one.
pub open spec fn target_share(target: Seq<(Seq<char>, Dec)>, c: Seq<char>) -> Dec
    decreases target.len(),
{
    if target.len() == 0 {
        fig(0, 0)
    } else if target[0].0 == c {
        target[0].1
    } else {
        target_share(target.drop_first(), c)
    }
}

pub open spec fn abs_dec(d: Dec) -> Dec {
    Dec { mantissa: abs_int(d.mantissa as int) as i128, scale: d.scale }
}

/// `|actual share - target share|` for one class.
pub open spec fn class_gap(ps: Seq<PositionView>, target: Seq<(Seq<char>, Dec)>, total: Dec, c: Seq<char>) -> Option<
    Dec,
> {
    match share_of(sum_where(ps, Pick::Class, c), total) {
        Some(a) => match c_sub(a, target_share(target, c)) {
            Some(g) => Some(abs_dec(g)),
            None => None,
        },
        None => None,
    }
}

/// The gaps of the classes `cs` summed in order from zero.
pub open spec fn drift_sum(
    ps: Seq<PositionView>,
    target: Seq<(Seq<char>, Dec)>,
    total: Dec,
    cs: Seq<Seq<char>>,
) -> Option<Dec>
    decreases cs.len(),
{
    if cs.len() == 0 {
        Some(fig(0, 0))
    } else {
        match drift_sum(ps, target, total, cs.drop_last()) {
            Some(s) => match class_gap(ps, target, total, cs.last()) {
                Some(g) => c_add(s, g),
                None => None,
            },
            None => None,
        }
    }
}

/// `clamp(d, 0, 1)`.
pub open spec fn clamp_unit(d: Dec) -> Dec {
    if d.units() < 0 {
        fig(0, 0)
    } else if fig(1, 0).units() < d.units() {
        fig(1, 0)
    } else {
        d
    }
}

pub open spec fn no_target_note() -> Seq<char> {
    "No target allocation configured — drift driver scored 100 by default."@
}

pub open spec fn skipped_drift() -> DriverView {
    DriverView {
        id: "allocationDrift"@,
        label: "Allocation drift"@,
        score: fig(100, 0),
        metric: fig(0, 0),
        note: "No target allocation set — skipped."@,
    }
}

/// Without a target, 100; otherwise half the summed gaps over every class,
/// held between 0 and 1, scored as a share.
pub open spec fn allocation_drift(ps: Seq<PositionView>, target: Seq<(Seq<char>, Dec)>, total: Dec) -> Option<
    DriverView,
> {
    if target.len() == 0 {
        Some(skipped_drift())
    } else {
        match drift_sum(ps, target, total, classes(target, ps)) {
            Some(d) => match c_div(d, fig(2, 0)) {
                Some(h) => share_driver(
                    "allocationDrift"@,
                    "Allocation drift"@,
                    Some(clamp_unit(h)),
                    Seq::empty(),
                    "% absolute drift vs. target allocation."@,
                ),
                None => None,
            },
            None => None,
        }
    }
}

fn class_keys(target: &Vec<(String, Dec)>, ps: &Vec<HealthPosition>) -> (r: Vec<String>)
    ensures
        strings_view(r@) == classes(target_view(target@), positions_view(ps@)),
{
    let ghost tv = target_view(target@);
    let ghost pv = positions_view(ps@);
    let ghost tk = tv.map_values(|e: (Seq<char>, Dec)| e.0);
    let ghost pk = pv.map_values(|p: PositionView| p.class);
    let mut keys: Vec<String> = Vec::new();
    let mut i: usize = 0;
    while i < target.len()
        invariant
            tv == target_view(target@),
            tk == tv.map_values(|e: (Seq<char>, Dec)| e.0),
            tk.len() == target@.len(),
            i <= target.len(),
            strings_view(keys@) == tk.take(i as int),
        decreases target.len() - i,
    {
        assert(tk[i as int] == target@[i as int].0@);
        let key = owned(target[i].0.as_str());
        let ghost before = keys@;
        keys.push(key);
        assert(strings_view(keys@) =~= strings_view(before).push(key@));
        assert(strings_view(keys@) =~= tk.take(i + 1));
        i = i + 1;
    }
    assert(tk.take(target.len() as int) =~= tk);
    let mut j: usize = 0;
    while j < ps.len()
        invariant
            pv == positions_view(ps@),
            pk == pv.map_values(|p: PositionView| p.class),
            pk.len() == ps@.len(),
            tk.len() == target@.len(),
            j <= ps.len(),
            strings_view(keys@) == tk + pk.take(j as int),
        decreases ps.len() - j,
    {
        assert(pk[j as int] == ps@[j as int].asset_class@);
        let key = owned(ps[j].asset_class.as_str());
        let ghost before = keys@;
        keys.push(key);
        assert(strings_view(keys@) =~= strings_view(before).push(key@));
        assert(strings_view(keys@) =~= tk + pk.take(j + 1));
        j = j + 1;
    }
    assert(pk.take(ps.len() as int) =~= pk);
    assert(strings_view(keys@) == key_list(tv, pv));
    let sorted = sort_strings(keys);
    let ghost sv = strings_view(sorted@);
    let mut out: Vec<String> = Vec::new();
    let mut k: usize = 0;
    assert(sv.take(0) =~= Seq::<Seq<char>>::empty());
    while k < sorted.len()
        invariant
            sv == strings_view(sorted@),
            k <= sorted.len(),
            strings_view(out@) == dedup_adjacent(sv.take(k as int)),
        decreases sorted.len() - k,
    {
        let x = &sorted[k];
        assert(sv.take(k + 1).drop_last() =~= sv.take(k as int));
        assert(sv.take(k + 1).last() == x@);
        let n = out.len();
        let repeat = n > 0 && str_eq(out[n - 1].as_str(), x.as_str());
        if !repeat {
            out.push(owned(x.as_str()));
            assert(strings_view(out@) =~= dedup_adjacent(sv.take(k + 1)));
        }
        k = k + 1;
    }
    assert(sv.take(sorted.len() as int) =~= sv);
    out
}

fn target_lookup(target: &Vec<(String, Dec)>, c: &str) -> (r: Dec)
    requires
        forall|i: int| 0 <= i < target@.len() ==> (#[trigger] target@[i]).1.valid(),
    ensures
        r == target_share(target_view(target@), c@),
        r.valid(),
{
    let ghost tv = target_view(target@);
    let mut i: usize = 0;
    assert(tv.skip(0) =~= tv);
    while i < target.len()
        invariant
            tv == target_view(target@),
            i <= target.len(),
            forall|j: int| 0 <= j < target@.len() ==> (#[trigger] target@[j]).1.valid(),
            target_share(tv, c@) == target_share(tv.skip(i as int), c@),
        decreases target.len() - i,
    {
        assert(tv.skip(i as int)[0] == tv[i as int]);
        if str_eq(target[i].0.as_str(), c) {
            return target[i].1;
        }
        assert(tv.skip(i as int).drop_first() =~= tv.skip(i + 1));
        i = i + 1;
    }
    assert(tv.skip(target.len() as int).len() == 0);
    Dec::zero()
}

fn class_gap_exec(ps: &Vec<HealthPosition>, target: &Vec<(String, Dec)>, total: Dec, c: &str) -> (r: Option<Dec>)
    requires
        forall|i: int| 0 <= i < ps@.len() ==> (#[trigger] ps@[i]).value_base.valid(),
        forall|i: int| 0 <= i < target@.len() ==> (#[trigger] target@[i]).1.valid(),
        total.valid(),
    ensures
        r == class_gap(positions_view(ps@), target_view(target@), total, c@),
        r matches Some(d) ==> d.valid(),
{
    match share_of_exec(sum_picked(ps, Pick::Class, c), total) {
        Some(a) => match sub_checked(a, target_lookup(target, c)) {
            Some(g) => Some(dec_abs(g)),
            None => None,
        },
        None => None,
    }
}

fn clamp_unit_exec(d: Dec) -> (r: Dec)
    requires
        d.valid(),
    ensures
        r == clamp_unit(d),
        r.valid(),
{
    let zero = Dec::zero();
    let unit = one();
    if dec_lt(d, zero) {
        zero
    } else if dec_lt(unit, d) {
        unit
    } else {
        d
    }
}

fn allocation_drift_exec(ps: &Vec<HealthPosition>, target: &Vec<(String, Dec)>, total: Dec) -> (r: Option<
    HealthDriver,
>)
    requires
        forall|i: int| 0 <= i < ps@.len() ==> (#[trigger] ps@[i]).value_base.valid(),
        forall|i: int| 0 <= i < target@.len() ==> (#[trigger] target@[i]).1.valid(),
        total.valid(),
    ensures
        opt_driver(r) == allocation_drift(positions_view(ps@), target_view(target@), total),
        r matches Some(d) ==> d.score.valid(),
{
    if target.len() == 0 {
        return Some(
            HealthDriver {
                id: owned("allocationDrift"),
                label: owned("Allocation drift"),
                score: hundred(),
                metric: Dec::zero(),
                note: owned("No target allocation set — skipped."),
            },
        );
    }
    let ghost pv = positions_view(ps@);
    let ghost tv = target_view(target@);
    let cs = class_keys(target, ps);
    let ghost csv = strings_view(cs@);
    let mut acc: Option<Dec> = Some(Dec::zero());
    let mut i: usize = 0;
    assert(csv.take(0).len() == 0);
    while i < cs.len()
        invariant
            pv == positions_view(ps@),
            tv == target_view(target@),
            csv == strings_view(cs@),
            i <= cs.len(),
            forall|j: int| 0 <= j < ps@.len() ==> (#[trigger] ps@[j]).value_base.valid(),
            forall|j: int| 0 <= j < target@.len() ==> (#[trigger] target@[j]).1.valid(),
            total.valid(),
            acc == drift_sum(pv, tv, total, csv.take(i as int)),
            acc matches Some(d) ==> d.valid(),
        decreases cs.len() - i,
    {
        assert(csv.take(i + 1).drop_last() =~= csv.take(i as int));
        assert(csv.take(i + 1).last() == cs@[i as int]@);
        acc = match acc {
            Some(s) => match class_gap_exec(ps, target, total, cs[i].as_str()) {
                Some(g) => add_checked(s, g),
                None => None,
            },
            None => None,
        };
        i = i + 1;
    }
    assert(csv.take(cs.len() as int) =~= csv);
    proof {
        reveal_strlit("");
        assert(""@ =~= Seq::<char>::empty());
    }
    match acc {
        Some(d) => match div_checked(d, Dec { mantissa: 2, scale: 0 }) {
            Some(h) => share_driver_exec(
                "allocationDrift",
                "Allocation drift",
                Some(clamp_unit_exec(h)),
                "",
                "% absolute drift vs. target allocation.",
            ),
            None => None,
        },
        None => None,
    }
}

pub open spec fn default_note() -> Seq<char> {
    "Health score is a heuristic, not financial advice. The four drivers (concentration, FX exposure, cash drag, allocation drift) are equal-weighted; a low score means the portfolio diverges from a diversified base-currency target — not that it's wrong."@
}

/// The drivers' scores summed in order from zero.
pub open spec fn score_sum(ds: Seq<DriverView>) -> Option<Dec>
    decreases ds.len(),
{
    if ds.len() == 0 {
        Some(fig(0, 0))
    } else {
        match score_sum(ds.drop_last()) {
            Some(s) => c_add(s, ds.last().score),
            None => None,
        }
    }
}

/// The mean of the drivers' scores, to two decimals.
pub open spec fn composite(ds: Seq<DriverView>) -> Option<Dec> {
    match score_sum(ds) {
        Some(s) => match c_div(s, fig(ds.len() as i128, 0)) {
            Some(q) => Some(round_to(q, 2)),
            None => None,
        },
        None => None,
    }
}

/// The first driver with the lowest score.
pub open spec fn worst_of(ds: Seq<DriverView>) -> DriverView
    decreases ds.len(),
{
    if ds.len() <= 1 {
        ds[0]
    } else {
        let w = worst_of(ds.drop_last());
        if ds.last().score.units() < w.score.units() {
            ds.last()
        } else {
            w
        }
    }
}

/// The report on positions `ps` against `target`: without a positive
/// total, no score and no drivers; otherwise the four drivers in order,
/// their mean as the score and the lowest as the callout. `None` where
/// rust_decimal's arithmetic would overflow (or divide by zero) on the way.
pub open spec fn health_of(ps: Seq<PositionView>, target: Seq<(Seq<char>, Dec)>, base: Option<Seq<char>>) -> Option<
    ReportView,
> {
    match sum_where(ps, Pick::All, Seq::empty()) {
        None => None,
        Some(total) => if total.units() <= 0 || ps.len() == 0 {
            Some(
                ReportView {
                    score: None,
                    drivers: Seq::empty(),
                    worst: None,
                    base_currency: base,
                    notes: seq![default_note()],
                },
            )
        } else {
            match (
                concentration(ps, total),
                fx_exposure(ps, total),
                cash_drag(ps, total),
                allocation_drift(ps, target, total),
            ) {
                (Some(a), Some(b), Some(c), Some(d)) => {
                    let ds = seq![a, b, c, d];
                    match composite(ds) {
                        Some(score) => Some(
                            ReportView {
                                score: Some(score),
                                drivers: ds,
                                worst: Some(worst_of(ds)),
                                base_currency: base,
                                notes: if target.len() == 0 {
                                    seq![default_note(), no_target_note()]
                                } else {
                                    seq![default_note()]
                                },
                            },
                        ),
                        None => None,
                    }
                },
                _ => None,
            }
        },
    }
}

pub open spec fn report_of(inputs: HealthInputs) -> Option<ReportView> {
    health_of(
        positions_view(inputs.positions@),
        target_view(inputs.target_allocation@),
        opt_chars(inputs.base_currency),
    )
}

fn copy_driver(d: &HealthDriver) -> (r: HealthDriver)
    ensures
        r@ == d@,
{
    HealthDriver {
        id: owned(d.id.as_str()),
        label: owned(d.label.as_str()),
        score: d.score,
        metric: d.metric,
        note: owned(d.note.as_str()),
    }
}

fn composite_exec(ds: &Vec<HealthDriver>) -> (r: Option<Dec>)
    requires
        ds@.len() == 4,
        forall|i: int| 0 <= i < ds@.len() ==> (#[trigger] ds@[i]).score.valid(),
    ensures
        r == composite(drivers_view(ds@)),
{
    let ghost dv = drivers_view(ds@);
    let mut acc: Option<Dec> = Some(Dec::zero());
    let mut i: usize = 0;
    assert(dv.take(0).len() == 0);
    while i < ds.len()
        invariant
            dv == drivers_view(ds@),
            i <= ds.len(),
            forall|j: int| 0 <= j < ds@.len() ==> (#[trigger] ds@[j]).score.valid(),
            acc == score_sum(dv.take(i as int)),
            acc matches Some(d) ==> d.valid(),
        decreases ds.len() - i,
    {
        assert(dv.take(i + 1).drop_last() =~= dv.take(i as int));
        assert(dv.take(i + 1).last() == ds@[i as int]@);
        acc = match acc {
            Some(s) => add_checked(s, ds[i].score),
            None => None,
        };
        i = i + 1;
    }
    assert(dv.take(ds.len() as int) =~= dv);
    match acc {
        Some(s) => match div_checked(s, Dec { mantissa: 4, scale: 0 }) {
            Some(q) => Some(round_dp(q, 2)),
            None => None,
        },
        None => None,
    }
}

fn worst_index(ds: &Vec<HealthDriver>) -> (r: usize)
    requires
        ds@.len() > 0,
        forall|i: int| 0 <= i < ds@.len() ==> (#[trigger] ds@[i]).score.valid(),
    ensures
        r < ds@.len(),
        ds@[r as int]@ == worst_of(drivers_view(ds@)),
{
    let ghost dv = drivers_view(ds@);
    let mut w: usize = 0;
    let mut i: usize = 1;
    assert(dv.take(1).len() == 1);
    while i < ds.len()
        invariant
            dv == drivers_view(ds@),
            1 <= i <= ds.len(),
            w < i,
            forall|j: int| 0 <= j < ds@.len() ==> (#[trigger] ds@[j]).score.valid(),
            ds@[w as int]@ == worst_of(dv.take(i as int)),
        decreases ds.len() - i,
    {
        assert(dv.take(i + 1).drop_last() =~= dv.take(i as int));
        assert(dv.take(i + 1).last() == ds@[i as int]@);
        if dec_lt(ds[i].score, ds[w].score) {
            w = i;
        }
        i = i + 1;
    }
    assert(dv.take(ds.len() as int) =~= dv);
    w
}

fn score_checked(inputs: &HealthInputs) -> (r: Option<HealthReport>)
    requires
        inputs_valid(*inputs),
    ensures
        match report_of(*inputs) {
            Some(v) => r matches Some(x) && x@ == v,
            None => r is None,
        },
{
    let ps = &inputs.positions;
    let ghost pv = positions_view(ps@);
    let total = sum_picked(ps, Pick::All, "");
    proof {
        reveal_strlit("");
        assert(""@ =~= Seq::<char>::empty());
    }
    let mut notes: Vec<String> = Vec::new();
    notes.push(
        owned(
            "Health score is a heuristic, not financial advice. The four drivers (concentration, FX exposure, cash drag, allocation drift) are equal-weighted; a low score means the portfolio diverges from a diversified base-currency target — not that it's wrong.",
        ),
    );
    let total = match total {
        Some(t) => t,
        None => return None,
    };
    if !dec_lt(Dec::zero(), total) || ps.len() == 0 {
        let r = HealthReport {
            score: None,
            drivers: Vec::new(),
            worst_driver: None,
            base_currency: inputs.base_currency.clone(),
            notes,
        };
        assert(r@.notes =~= seq![default_note()]);
        assert(r@.drivers =~= Seq::<DriverView>::empty());
        return Some(r);
    }
    let a = match concentration_exec(ps, total) {
        Some(x) => x,
        None => return None,
    };
    let b = match fx_exposure_exec(ps, total) {
        Some(x) => x,
        None => return None,
    };
    let c = match cash_drag_exec(ps, total) {
        Some(x) => x,
        None => return None,
    };
    let d = match allocation_drift_exec(ps, &inputs.target_allocation, total) {
        Some(x) => x,
        None => return None,
    };
    if inputs.target_allocation.len() == 0 {
        notes.push(owned("No target allocation configured — drift driver scored 100 by default."));
    }
    let ghost ds = seq![a@, b@, c@, d@];
    let mut drivers: Vec<HealthDriver> = Vec::new();
    drivers.push(a);
    drivers.push(b);
    drivers.push(c);
    drivers.push(d);
    assert(drivers_view(drivers@) =~= ds);
    let score = match composite_exec(&drivers) {
        Some(s) => s,
        None => return None,
    };
    let w = worst_index(&drivers);
    let worst = copy_driver(&drivers[w]);
    let r = HealthReport {
        score: Some(score),
        drivers,
        worst_driver: Some(worst),
        base_currency: inputs.base_currency.clone(),
        notes,
    };
    assert(r@.notes =~= (if inputs.target_allocation@.len() == 0 {
        seq![default_note(), no_target_note()]
    } else {
        seq![default_note()]
    }));
    Some(r)
}

/// Scores a portfolio (see [`health_of`]): an empty portfolio, or one
/// whose total is not positive, gets no score; otherwise the four drivers,
/// their mean as the score to two decimals, and the lowest driver called
/// out. The report always carries the disclaimer, and a note when the drift
/// driver was skipped for want of a target.
pub fn score_health(inputs: HealthInputs) -> (r: HealthReport)
    requires
        inputs_valid(inputs),
        report_of(inputs) is Some,
    ensures
        Some(r@) == report_of(inputs),
{
    score_checked(&inputs).unwrap()
}

/// [`score_health`] where the arithmetic stays in range; nothing where it
/// would overflow.
pub fn try_score_health(inputs: HealthInputs) -> (r: Option<HealthReport>)
    requires
        inputs_valid(inputs),
    ensures
        match report_of(inputs) {
            Some(v) => r matches Some(x) && x@ == v,
            None => r is None,
        },
{
    if score_checked(&inputs).is_some() {
        Some(score_health(inputs))
    } else {
        None
    }
}

/// An empty portfolio gets no score, no drivers and no callout, only the
/// disclaimer.
pub proof fn lemma_empty_portfolio_unscored(target: Seq<(Seq<char>, Dec)>, base: Option<Seq<char>>)
    ensures
        health_of(Seq::empty(), target, base) == Some(
            ReportView {
                score: None,
                drivers: Seq::empty(),
                worst: None,
                base_currency: base,
                notes: seq![default_note()],
            },
        ),
{
    assert(fig(0, 0).units() == 0) by (nonlinear_arith);
}

/// A portfolio whose total is zero or negative gets no score either.
pub proof fn lemma_non_positive_total_unscored(
    ps: Seq<PositionView>,
    target: Seq<(Seq<char>, Dec)>,
    base: Option<Seq<char>>,
    total: Dec,
)
    requires
        sum_where(ps, Pick::All, Seq::empty()) == Some(total),
        total.units() <= 0,
    ensures
        health_of(ps, target, base) matches Some(v) && v.score is None && v.drivers.len() == 0 && v.worst is None,
{
}

/// `100 * (1 - share)`, clamped, lies between 0 and 100.
proof fn lemma_complement_in_range(share: Dec)
    requires
        complement_score(share) is Some,
    ensures
        0 <= complement_score(share).unwrap().units() <= fig(100, 0).units(),
{
    assert(fig(0, 0).units() == 0) by (nonlinear_arith);
    assert(fig(100, 0).units() >= 0) by {
        crate::decimal::lemma_pow10_positive(28);
        assert(fig(100, 0).units() == 100 * crate::decimal::pow10(28));
    }
}

/// Each of the four drivers scores between 0 and 100.
pub proof fn lemma_driver_scores_in_range(ps: Seq<PositionView>, target: Seq<(Seq<char>, Dec)>, base: Option<Seq<char>>)
    requires
        health_of(ps, target, base) is Some,
    ensures
        forall|i: int|
            0 <= i < health_of(ps, target, base).unwrap().drivers.len() ==> 0 <= (
            #[trigger] health_of(ps, target, base).unwrap().drivers[i]).score.units() <= fig(100, 0).units(),
{
    let v = health_of(ps, target, base).unwrap();
    crate::decimal::lemma_pow10_positive(28);
    assert(fig(100, 0).units() == 100 * crate::decimal::pow10(28));
    assert(fig(0, 0).units() == 0) by (nonlinear_arith);
    if v.drivers.len() > 0 {
        let total = sum_where(ps, Pick::All, Seq::empty()).unwrap();
        lemma_complement_in_range(c_div(top_value(ps), total).unwrap());
        lemma_complement_in_range(share_of(sum_where(ps, Pick::Foreign, Seq::empty()), total).unwrap());
        let cs = share_of(sum_where(ps, Pick::Cash, Seq::empty()), total).unwrap();
        if cs.units() > cash_target().units() {
            let q = c_div(c_sub(cs, cash_target()).unwrap(), c_sub(fig(1, 0), cash_target()).unwrap()).unwrap();
            lemma_complement_in_range(q);
        }
        if target.len() > 0 {
            let d = drift_sum(ps, target, total, classes(target, ps)).unwrap();
            let h = c_div(d, fig(2, 0)).unwrap();
            lemma_complement_in_range(clamp_unit(h));
        }
        assert(v.drivers.len() == 4);
    }
}

proof fn lemma_worst_of(ds: Seq<DriverView>)
    requires
        ds.len() > 0,
    ensures
        exists|k: int|
            0 <= k < ds.len() && #[trigger] ds[k] == worst_of(ds) && forall|j: int|
                0 <= j < k ==> worst_of(ds).score.units() < (#[trigger] ds[j]).score.units(),
        forall|j: int| 0 <= j < ds.len() ==> worst_of(ds).score.units() <= (#[trigger] ds[j]).score.units(),
    decreases ds.len(),
{
    if ds.len() > 1 {
        let prior = ds.drop_last();
        lemma_worst_of(prior);
        let k = choose|k: int|
            0 <= k < prior.len() && #[trigger] prior[k] == worst_of(prior) && forall|j: int|
                0 <= j < k ==> worst_of(prior).score.units() < (#[trigger] prior[j]).score.units();
        assert(ds[k] == prior[k]);
        if ds.last().score.units() < worst_of(prior).score.units() {
            assert(ds[ds.len() - 1] == worst_of(ds));
            assert forall|j: int| 0 <= j < ds.len() - 1 implies worst_of(ds).score.units() < (#[trigger] ds[j]).score.units() by {
                assert(ds[j] == prior[j]);
            }
        } else {
            assert forall|j: int| 0 <= j < k implies worst_of(ds).score.units() < (#[trigger] ds[j]).score.units() by {
                assert(ds[j] == prior[j]);
            }
        }
        assert forall|j: int| 0 <= j < ds.len() implies worst_of(ds).score.units() <= (#[trigger] ds[j]).score.units() by {
            if j < ds.len() - 1 {
                assert(ds[j] == prior[j]);
            }
        }
    } else {
        assert(ds[0] == worst_of(ds));
    }
}

/// The callout is a driver of the report, no driver scores lower, and it
/// is the first of those with its score.
pub proof fn lemma_worst_is_lowest(ps: Seq<PositionView>, target: Seq<(Seq<char>, Dec)>, base: Option<Seq<char>>)
    requires
        health_of(ps, target, base) matches Some(v) && v.worst is Some,
    ensures
        ({
            let v = health_of(ps, target, base).unwrap();
            let w = v.worst.unwrap();
            &&& exists|k: int|
                0 <= k < v.drivers.len() && #[trigger] v.drivers[k] == w && forall|j: int|
                    0 <= j < k ==> w.score.units() < (#[trigger] v.drivers[j]).score.units()
            &&& forall|j: int| 0 <= j < v.drivers.len() ==> w.score.units() <= (#[trigger] v.drivers[j]).score.units()
        }),
{
    let v = health_of(ps, target, base).unwrap();
    lemma_worst_of(v.drivers);
}

/// Cash at or below the 20% target scores 100.
pub proof fn lemma_cash_within_target_scores_full(share: Dec)
    requires
        share.units() <= cash_target().units(),
    ensures
        cash_score(share) == Some(fig(100, 0)),
{
}

/// Without a target allocation the drift driver scores 100, and the report
/// says so.
pub proof fn lemma_no_target_skips_drift(ps: Seq<PositionView>, base: Option<Seq<char>>)
    requires
        health_of(ps, Seq::empty(), base) matches Some(v) && v.score is Some,
    ensures
        ({
            let v = health_of(ps, Seq::empty(), base).unwrap();
            &&& v.drivers[3] == skipped_drift()
            &&& v.drivers[3].score == fig(100, 0)
            &&& v.notes == seq![default_note(), no_target_note()]
        }),
{
}

/// The composite score is the mean of the four drivers in the order
/// concentration, FX exposure, cash drag, allocation drift.
pub proof fn lemma_driver_order(ps: Seq<PositionView>, target: Seq<(Seq<char>, Dec)>, base: Option<Seq<char>>)
    requires
        health_of(ps, target, base) matches Some(v) && v.score is Some,
    ensures
        ({
            let v = health_of(ps, target, base).unwrap();
            &&& v.drivers.len() == 4
            &&& v.drivers[0].id == "concentration"@
            &&& v.drivers[1].id == "fxExposure"@
            &&& v.drivers[2].id == "cashDrag"@
            &&& v.drivers[3].id == "allocationDrift"@
            &&& v.score == composite(v.drivers)
        }),
{
}

proof fn lemma_dedup_elements(s: Seq<Seq<char>>)
    ensures
        forall|y: Seq<char>| #[trigger] dedup_adjacent(s).contains(y) <==> s.contains(y),
        s.len() > 0 ==> dedup_adjacent(s).len() > 0 && dedup_adjacent(s).last() == s.last(),
    decreases s.len(),
{
    if s.len() > 0 {
        let p = s.drop_last();
        lemma_dedup_elements(p);
        let d = dedup_adjacent(p);
        let r = dedup_adjacent(s);
        let x = s.last();
        let kept = d.len() > 0 && d.last() == x;
        if kept {
            assert(r == d);
        } else {
            assert(r == d.push(x));
            assert(r[r.len() - 1] == x);
        }
        assert forall|y: Seq<char>| #[trigger] r.contains(y) <==> s.contains(y) by {
            if r.contains(y) {
                let i = choose|i: int| 0 <= i < r.len() && r[i] == y;
                if i < d.len() {
                    assert(d[i] == y);
                    assert(d.contains(y));
                    let k = choose|k: int| 0 <= k < p.len() && p[k] == y;
                    assert(s[k] == y);
                } else {
                    assert(s[s.len() - 1] == y);
                }
            }
            if s.contains(y) {
                let k = choose|k: int| 0 <= k < s.len() && s[k] == y;
                if k == s.len() - 1 {
                    if kept {
                        assert(r[d.len() - 1] == y);
                    } else {
                        assert(r[r.len() - 1] == y);
                    }
                } else {
                    assert(p[k] == y);
                    assert(p.contains(y));
                    assert(d.contains(y));
                    let i = choose|i: int| 0 <= i < d.len() && d[i] == y;
                    assert(r[i] == y);
                }
            }
        }
    }
}

proof fn lemma_dedup_strict(s: Seq<Seq<char>>)
    requires
        sorted_by(s, str_lt_fn()),
        strict_total(str_lt_fn()),
    ensures
        forall|i: int, j: int|
            0 <= i < j < dedup_adjacent(s).len() ==> str_lt(
                #[trigger] dedup_adjacent(s)[i],
                #[trigger] dedup_adjacent(s)[j],
            ),
    decreases s.len(),
{
    if s.len() > 0 {
        let p = s.drop_last();
        assert forall|i: int, j: int| 0 <= i < j < p.len() implies !(str_lt_fn())(#[trigger] p[j], #[trigger] p[i]) by {
            assert(p[i] == s[i] && p[j] == s[j]);
        }
        lemma_dedup_strict(p);
        lemma_dedup_elements(p);
        let d = dedup_adjacent(p);
        let x = s.last();
        if !(d.len() > 0 && d.last() == x) {
            let r = dedup_adjacent(s);
            assert(r == d.push(x));
            assert forall|i: int| 0 <= i < d.len() implies str_lt(#[trigger] d[i], x) by {
                assert(d.contains(d[i]));
                let k = choose|k: int| 0 <= k < p.len() && p[k] == d[i];
                assert(s[k] == d[i]);
                assert(!(str_lt_fn())(s[s.len() - 1], s[k]));
                if d[i] == x {
                    assert(i < d.len() - 1);
                    assert(str_lt(d[i], d[d.len() - 1]));
                    assert(d.last() == p.last());
                    assert(s[s.len() - 2] == p.last());
                    assert(!(str_lt_fn())(s[s.len() - 1], s[s.len() - 2]));
                } else {
                    assert((str_lt_fn())(s[k], x) || (str_lt_fn())(x, s[k]));
                }
            }
            assert forall|i: int, j: int| 0 <= i < j < r.len() implies str_lt(#[trigger] r[i], #[trigger] r[j]) by {
                assert(r[i] == d[i]);
                if j < d.len() {
                    assert(r[j] == d[j]);
                } else {
                    assert(r[j] == x);
                }
            }
        }
    }
}

/// Drift is measured over every asset class that the target names or a
/// position holds, each exactly once, in string order.
pub proof fn lemma_classes_each_once(target: Seq<(Seq<char>, Dec)>, ps: Seq<PositionView>)
    ensures
        forall|c: Seq<char>| #[trigger] classes(target, ps).contains(c) <==> key_list(target, ps).contains(c),
        forall|i: int, j: int|
            0 <= i < j < classes(target, ps).len() ==> str_lt(
                #[trigger] classes(target, ps)[i],
                #[trigger] classes(target, ps)[j],
            ),
{
    let k = key_list(target, ps);
    lemma_string_orders_total();
    lemma_total_is_weak(str_lt_fn());
    lemma_isort_sorted(k, str_lt_fn());
    lemma_isort_elements(k, str_lt_fn());
    lemma_isort_keeps(k, str_lt_fn());
    let sorted = isort(k, str_lt_fn());
    lemma_dedup_elements(sorted);
    lemma_dedup_strict(sorted);
    assert forall|c: Seq<char>| #[trigger] classes(target, ps).contains(c) <==> k.contains(c) by {
        if k.contains(c) {
            assert(sorted.contains(c));
        }
    }
}
/// The concentration measure reads the largest position: no position is
/// worth more than `top_value`, and (when there are positions) it is the
/// value of one of them.
pub proof fn lemma_top_value_is_largest(ps: Seq<PositionView>)
    ensures
        forall|i: int| 0 <= i < ps.len() ==> (#[trigger] ps[i]).value.units() <= top_value(ps).units(),
        ps.len() > 0 ==> exists|i: int| 0 <= i < ps.len() && top_value(ps) == (#[trigger] ps[i]).value,
    decreases ps.len(),
{
    if ps.len() == 1 {
        assert(top_value(ps) == ps[0].value);
    } else if ps.len() > 1 {
        let d = ps.drop_last();
        lemma_top_value_is_largest(d);
        assert forall|i: int| 0 <= i < ps.len() implies (#[trigger] ps[i]).value.units() <= top_value(ps).units() by {
            if i < ps.len() - 1 {
                assert(ps[i] == d[i]);
            }
        }
        if ps.last().value.units() < top_value(d).units() {
            let i = choose|i: int| 0 <= i < d.len() && top_value(d) == (#[trigger] d[i]).value;
            assert(ps[i] == d[i]);
        } else {
            assert(top_value(ps) == ps[ps.len() - 1].value);
        }
    }
}

} // verus!
