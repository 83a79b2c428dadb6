//! Stock-split adjustment, shared by quantities and prices so that both are
//! told in current shares: a historical quantity is multiplied, and a
//! historical close divided, by the product of the ratios of every split
//! dated strictly after it (`4` is a 4:1 forward split, `0.2` a 1:5 reverse
//! one). Nothing stored is changed; the same splits and closes always give
//! the same adjusted series.
use vstd::prelude::*;

use crate::dates::{date_before, is_before, CalendarDate};
use crate::decimal::{c_div, c_mul, dec_lt, div_checked, mul_checked, Dec};
use crate::sorting::{isort, lemma_ins_at, lemma_isort_sorted, sorted_by, strict_weak};
use crate::text::{owned, str_eq};
use crate::tools::common::{contains_str, strings_view};

verus! {

pub open spec fn fig(m: i128, s: u32) -> Dec {
    Dec { mantissa: m, scale: s }
}

/// The product of the ratios of the splits dated strictly after `as_of`,
/// taken in list order from one with rust_decimal's checked `*` (`None`
/// where it overflows).
pub open spec fn cumulative(splits: Seq<(CalendarDate, Dec)>, as_of: CalendarDate) -> Option<Dec>
    decreases splits.len(),
{
    if splits.len() == 0 {
        Some(fig(1, 0))
    } else {
        match cumulative(splits.drop_last(), as_of) {
            Some(f) => if date_before(as_of, splits.last().0) {
                c_mul(f, splits.last().1)
            } else {
                Some(f)
            },
            None => None,
        }
    }
}

pub open spec fn ratios_valid(splits: Seq<(CalendarDate, Dec)>) -> bool {
    forall|i: int| 0 <= i < splits.len() ==> (#[trigger] splits[i]).1.valid()
}

fn cumulative_checked(splits: &Vec<(CalendarDate, Dec)>, as_of: CalendarDate) -> (r: Option<Dec>)
    requires
        ratios_valid(splits@),
    ensures
        r == cumulative(splits@, as_of),
        r matches Some(d) ==> d.valid(),
{
    let ghost s = splits@;
    let mut factor: Option<Dec> = Some(Dec { mantissa: 1, scale: 0 });
    let mut i: usize = 0;
    assert(s.take(0).len() == 0);
    while i < splits.len()
        invariant
            s == splits@,
            i <= s.len(),
            ratios_valid(s),
            factor == cumulative(s.take(i as int), as_of),
            factor matches Some(d) ==> d.valid(),
        decreases s.len() - i,
    {
        let (date, ratio) = splits[i];
        assert(s.take(i + 1).drop_last() =~= s.take(i as int));
        assert(s.take(i + 1).last() == s[i as int]);
        assert(s[i as int].1.valid());
        if is_before(as_of, date) {
            factor = match factor {
                Some(f) => mul_checked(f, ratio),
                None => None,
            };
        }
        i = i + 1;
    }
    assert(s.take(s.len() as int) =~= s);
    factor
}

/// The cumulative split factor for an event on `as_of`: the product of the
/// ratios of every split dated strictly after it; one when there are none.
pub fn cumulative_factor_after(splits: &Vec<(CalendarDate, Dec)>, as_of: CalendarDate) -> (r: Dec)
    requires
        ratios_valid(splits@),
        cumulative(splits@, as_of) is Some,
    ensures
        Some(r) == cumulative(splits@, as_of),
{
    cumulative_checked(splits, as_of).unwrap()
}

/// [`cumulative_factor_after`] where the product stays in range; nothing
/// where it would overflow.
pub fn try_cumulative_factor_after(splits: &Vec<(CalendarDate, Dec)>, as_of: CalendarDate) -> (r: Option<Dec>)
    requires
        ratios_valid(splits@),
    ensures
        r == cumulative(splits@, as_of),
{
    if cumulative_checked(splits, as_of).is_some() {
        Some(cumulative_factor_after(splits, as_of))
    } else {
        None
    }
}

/// A raw close in current shares: unchanged when the factor is one (or a
/// corrupt zero), otherwise divided by it.
pub open spec fn adjusted(raw: Dec, splits: Seq<(CalendarDate, Dec)>, date: CalendarDate) -> Option<Dec> {
    match cumulative(splits, date) {
        Some(f) => if f.units() == 0 || f.units() == fig(1, 0).units() {
            Some(raw)
        } else {
            c_div(raw, f)
        },
        None => None,
    }
}

fn adjusted_checked(raw_close: Dec, splits: &Vec<(CalendarDate, Dec)>, date: CalendarDate) -> (r: Option<Dec>)
    requires
        raw_close.valid(),
        ratios_valid(splits@),
    ensures
        r == adjusted(raw_close, splits@, date),
{
    match cumulative_checked(splits, date) {
        Some(f) => {
            let zero = Dec::zero();
            let one = Dec { mantissa: 1, scale: 0 };
            let is_zero = !dec_lt(f, zero) && !dec_lt(zero, f);
            let is_one = !dec_lt(f, one) && !dec_lt(one, f);
            if is_zero || is_one {
                Some(raw_close)
            } else {
                div_checked(raw_close, f)
            }
        },
        None => None,
    }
}

/// A raw close adjusted into current shares:
/// `raw / Π(ratio of the splits dated after date)`; the close itself where
/// no split is later.
pub fn split_adjusted_close(raw_close: Dec, splits: &Vec<(CalendarDate, Dec)>, date: CalendarDate) -> (r: Dec)
    requires
        raw_close.valid(),
        ratios_valid(splits@),
        adjusted(raw_close, splits@, date) is Some,
    ensures
        Some(r) == adjusted(raw_close, splits@, date),
{
    adjusted_checked(raw_close, splits, date).unwrap()
}

/// [`split_adjusted_close`] where the arithmetic stays in range; nothing
/// where it would overflow.
pub fn try_split_adjusted_close(raw_close: Dec, splits: &Vec<(CalendarDate, Dec)>, date: CalendarDate) -> (r: Option<
    Dec,
>)
    requires
        raw_close.valid(),
        ratios_valid(splits@),
    ensures
        r == adjusted(raw_close, splits@, date),
{
    if adjusted_checked(raw_close, splits, date).is_some() {
        Some(split_adjusted_close(raw_close, splits, date))
    } else {
        None
    }
}

/// With no split after the date, the factor is one and the close is left
/// as it is.
pub proof fn lemma_no_later_split_is_identity(raw: Dec, splits: Seq<(CalendarDate, Dec)>, date: CalendarDate)
    requires
        forall|i: int| 0 <= i < splits.len() ==> !date_before(date, (#[trigger] splits[i]).0),
    ensures
        cumulative(splits, date) == Some(fig(1, 0)),
        adjusted(raw, splits, date) == Some(raw),
    decreases splits.len(),
{
    if splits.len() > 0 {
        let p = splits.drop_last();
        assert forall|i: int| 0 <= i < p.len() implies !date_before(date, (#[trigger] p[i]).0) by {
            assert(p[i] == splits[i]);
        }
        lemma_no_later_split_is_identity(raw, p, date);
        assert(!date_before(date, splits[splits.len() - 1].0));
    }
}


/// An activity as the split collection reads it, its date already in the
/// user's time zone.
pub struct SplitActivity {
    pub id: String,
    pub activity_type: String,
    pub date: CalendarDate,
    pub asset_id: Option<String>,
    /// The split ratio.
    pub amount: Option<Dec>,
}

pub ghost struct SplitView {
    pub kind: Seq<char>,
    pub date: CalendarDate,
    pub asset: Option<Seq<char>>,
    pub amount: Option<Dec>,
}

impl SplitActivity {
    pub open spec fn view(&self) -> SplitView {
        SplitView {
            kind: self.activity_type@,
            date: self.date,
            asset: match self.asset_id {
                Some(a) => Some(a@),
                None => None,
            },
            amount: self.amount,
        }
    }
}

pub open spec fn activities_view(s: Seq<SplitActivity>) -> Seq<SplitView> {
    s.map_values(|a: SplitActivity| a@)
}

/// Per asset, its split events by date: `(asset id, [(date, ratio)])`.
pub type SplitFactors = Vec<(String, Vec<(CalendarDate, Dec)>)>;

pub open spec fn factors_view(f: Seq<(String, Vec<(CalendarDate, Dec)>)>) -> Seq<(Seq<char>, Seq<(CalendarDate, Dec)>)> {
    f.map_values(|e: (String, Vec<(CalendarDate, Dec)>)| (e.0@, e.1@))
}

/// A split of a known asset, dated within `[start, end]`, with a positive
/// ratio; any other activity is passed over.
pub open spec fn counted(a: SplitView, start: CalendarDate, end: CalendarDate) -> bool {
    &&& a.kind == "SPLIT"@
    &&& !date_before(a.date, start)
    &&& !date_before(end, a.date)
    &&& a.asset is Some
    &&& a.amount matches Some(r) && r.mantissa > 0
}

/// The assets with a counted split, in order of their first one.
pub open spec fn split_assets(s: Seq<SplitView>, start: CalendarDate, end: CalendarDate) -> Seq<Seq<char>>
    decreases s.len(),
{
    if s.len() == 0 {
        Seq::empty()
    } else {
        let p = split_assets(s.drop_last(), start, end);
        let a = s.last();
        if counted(a, start, end) && !p.contains(a.asset.unwrap()) {
            p.push(a.asset.unwrap())
        } else {
            p
        }
    }
}

/// The counted splits of one asset, in activity order.
pub open spec fn events_of(s: Seq<SplitView>, start: CalendarDate, end: CalendarDate, asset: Seq<char>) -> Seq<
    (CalendarDate, Dec),
>
    decreases s.len(),
{
    if s.len() == 0 {
        Seq::empty()
    } else {
        let p = events_of(s.drop_last(), start, end, asset);
        let a = s.last();
        if counted(a, start, end) && a.asset == Some(asset) {
            p.push((a.date, a.amount.unwrap()))
        } else {
            p
        }
    }
}

pub open spec fn event_lt() -> spec_fn((CalendarDate, Dec), (CalendarDate, Dec)) -> bool {
    |x: (CalendarDate, Dec), y: (CalendarDate, Dec)| date_before(x.0, y.0)
}

/// Events with the same date as the one kept before them dropped.
pub open spec fn dedup_dates(s: Seq<(CalendarDate, Dec)>) -> Seq<(CalendarDate, Dec)>
    decreases s.len(),
{
    if s.len() == 0 {
        s
    } else {
        let d = dedup_dates(s.drop_last());
        if d.len() > 0 && d.last().0 == s.last().0 {
            d
        } else {
            d.push(s.last())
        }
    }
}

/// Sorted by date (stable), then one event per date: the first.
pub open spec fn by_date(evs: Seq<(CalendarDate, Dec)>) -> Seq<(CalendarDate, Dec)> {
    dedup_dates(isort(evs, event_lt()))
}

pub open spec fn split_factors(s: Seq<SplitView>, start: CalendarDate, end: CalendarDate) -> Seq<
    (Seq<char>, Seq<(CalendarDate, Dec)>),
> {
    split_assets(s, start, end).map_values(|asset: Seq<char>| (asset, by_date(events_of(s, start, end, asset))))
}

fn counted_exec(a: &SplitActivity, start: CalendarDate, end: CalendarDate) -> (r: bool)
    ensures
        r == counted(a@, start, end),
{
    if !str_eq(a.activity_type.as_str(), "SPLIT") || is_before(a.date, start) || is_before(end, a.date) {
        return false;
    }
    match (&a.asset_id, &a.amount) {
        (Some(_), Some(r)) => r.mantissa > 0,
        _ => false,
    }
}

fn assets_exec(acts: &Vec<SplitActivity>, start: CalendarDate, end: CalendarDate) -> (r: Vec<String>)
    ensures
        strings_view(r@) == split_assets(activities_view(acts@), start, end),
{
    let ghost s = activities_view(acts@);
    let mut out: Vec<String> = Vec::new();
    let mut i: usize = 0;
    assert(s.take(0).len() == 0);
    while i < acts.len()
        invariant
            s == activities_view(acts@),
            i <= acts.len(),
            strings_view(out@) == split_assets(s.take(i as int), start, end),
        decreases acts.len() - i,
    {
        let a = &acts[i];
        assert(s.take(i + 1).drop_last() =~= s.take(i as int));
        assert(s.take(i + 1).last() == a@);
        if counted_exec(a, start, end) {
            match &a.asset_id {
                Some(id) => {
                    if !contains_str(&out, id.as_str()) {
                        let key = owned(id.as_str());
                        let ghost before = out@;
                        out.push(key);
                        assert(strings_view(out@) =~= strings_view(before).push(key@));
                    }
                },
                None => {},
            }
        }
        i = i + 1;
    }
    assert(s.take(acts.len() as int) =~= s);
    out
}

fn events_exec(acts: &Vec<SplitActivity>, start: CalendarDate, end: CalendarDate, asset: &str) -> (r: Vec<
    (CalendarDate, Dec),
>)
    ensures
        r@ == events_of(activities_view(acts@), start, end, asset@),
{
    let ghost s = activities_view(acts@);
    let mut out: Vec<(CalendarDate, Dec)> = Vec::new();
    let mut i: usize = 0;
    assert(s.take(0).len() == 0);
    while i < acts.len()
        invariant
            s == activities_view(acts@),
            i <= acts.len(),
            out@ == events_of(s.take(i as int), start, end, asset@),
        decreases acts.len() - i,
    {
        let a = &acts[i];
        assert(s.take(i + 1).drop_last() =~= s.take(i as int));
        assert(s.take(i + 1).last() == a@);
        if counted_exec(a, start, end) {
            match (&a.asset_id, &a.amount) {
                (Some(id), Some(r)) => {
                    if str_eq(id.as_str(), asset) {
                        out.push((a.date, *r));
                    }
                },
                _ => {},
            }
        }
        i = i + 1;
    }
    assert(s.take(acts.len() as int) =~= s);
    out
}

fn sort_events(v: Vec<(CalendarDate, Dec)>) -> (r: Vec<(CalendarDate, Dec)>)
    ensures
        r@ == isort(v@, event_lt()),
{
    let mut out: Vec<(CalendarDate, Dec)> = Vec::new();
    let mut i: usize = 0;
    assert(out@ =~= isort(v@.take(0), event_lt()));
    while i < v.len()
        invariant
            i <= v.len(),
            out@ == isort(v@.take(i as int), event_lt()),
        decreases v.len() - i,
    {
        let x = v[i];
        let mut k: usize = out.len();
        while k > 0 && is_before(x.0, out[k - 1].0)
            invariant
                k <= out.len(),
                forall|t: int| k <= t < out.len() ==> (event_lt())(x, #[trigger] out@[t]),
            decreases k,
        {
            k = k - 1;
        }
        let ghost before = out@;
        proof {
            lemma_ins_at(before, x, event_lt(), k as int);
            assert(v@.take(i + 1).drop_last() =~= v@.take(i as int));
            assert(v@.take(i + 1).last() == x);
        }
        out.insert(k, x);
        assert(out@ =~= before.take(k as int).push(x) + before.skip(k as int));
        i = i + 1;
    }
    assert(v@.take(v.len() as int) =~= v@);
    out
}

fn dedup_events(v: &Vec<(CalendarDate, Dec)>) -> (r: Vec<(CalendarDate, Dec)>)
    ensures
        r@ == dedup_dates(v@),
{
    let mut out: Vec<(CalendarDate, Dec)> = Vec::new();
    let mut i: usize = 0;
    assert(v@.take(0).len() == 0);
    while i < v.len()
        invariant
            i <= v.len(),
            out@ == dedup_dates(v@.take(i as int)),
        decreases v.len() - i,
    {
        let x = v[i];
        assert(v@.take(i + 1).drop_last() =~= v@.take(i as int));
        assert(v@.take(i + 1).last() == x);
        let n = out.len();
        let repeat = n > 0 && out[n - 1].0 == x.0;
        if !repeat {
            out.push(x);
        }
        i = i + 1;
    }
    assert(v@.take(v.len() as int) =~= v@);
    out
}

/// The split events of each asset from the `Split` activities dated within
/// `[start, end]` (see [`split_factors`]): an activity without an asset or
/// with a ratio that is not positive is passed over; each asset's events
/// are sorted by date, and a split recorded again on the same date (the
/// same split seen in another account) is kept once.
pub fn collect_split_factors(activities: &Vec<SplitActivity>, start: CalendarDate, end: CalendarDate) -> (r:
    SplitFactors)
    ensures
        factors_view(r@) == split_factors(activities_view(activities@), start, end),
{
    let ghost s = activities_view(activities@);
    let assets = assets_exec(activities, start, end);
    let ghost keys = strings_view(assets@);
    let mut out: SplitFactors = Vec::new();
    let mut i: usize = 0;
    while i < assets.len()
        invariant
            s == activities_view(activities@),
            keys == strings_view(assets@),
            keys == split_assets(s, start, end),
            i <= assets.len(),
            factors_view(out@) == keys.take(i as int).map_values(
                |asset: Seq<char>| (asset, by_date(events_of(s, start, end, asset))),
            ),
        decreases assets.len() - i,
    {
        let key = assets[i].as_str();
        let events = events_exec(activities, start, end, key);
        let sorted = sort_events(events);
        let kept = dedup_events(&sorted);
        let ghost before = out@;
        let name = owned(key);
        let ghost entry = (name@, kept@);
        out.push((name, kept));
        assert(factors_view(out@) =~= factors_view(before).push(entry));
        assert(keys[i as int] == key@);
        assert(factors_view(out@) =~= keys.take(i + 1).map_values(
            |asset: Seq<char>| (asset, by_date(events_of(s, start, end, asset))),
        ));
        i = i + 1;
    }
    assert(keys.take(assets.len() as int) =~= keys);
    out
}

proof fn lemma_event_order_weak()
    ensures
        strict_weak(event_lt()),
{
    assert forall|a: (CalendarDate, Dec), c: (CalendarDate, Dec), b: (CalendarDate, Dec)|
        (event_lt())(a, c) implies #[trigger] (event_lt())(a, b) || #[trigger] (event_lt())(b, c) by {
    }
}

proof fn lemma_dedup_dates_elements(s: Seq<(CalendarDate, Dec)>)
    ensures
        forall|y: (CalendarDate, Dec)| #[trigger] dedup_dates(s).contains(y) ==> s.contains(y),
        s.len() > 0 ==> dedup_dates(s).len() > 0 && dedup_dates(s).last().0 == s.last().0,
    decreases s.len(),
{
    if s.len() > 0 {
        let p = s.drop_last();
        lemma_dedup_dates_elements(p);
        let d = dedup_dates(p);
        let r = dedup_dates(s);
        if d.len() > 0 && d.last().0 == s.last().0 {
            assert(r == d);
        } else {
            assert(r == d.push(s.last()));
        }
        assert forall|y: (CalendarDate, Dec)| #[trigger] r.contains(y) implies s.contains(y) by {
            let i = choose|i: int| 0 <= i < r.len() && r[i] == y;
            if i < d.len() {
                assert(d[i] == y);
                assert(d.contains(y));
                let k = choose|k: int| 0 <= k < p.len() && p[k] == y;
                assert(s[k] == y);
            } else {
                assert(s[s.len() - 1] == y);
            }
        }
    }
}

proof fn lemma_dedup_dates_strict(s: Seq<(CalendarDate, Dec)>)
    requires
        sorted_by(s, event_lt()),
    ensures
        forall|i: int, j: int|
            0 <= i < j < dedup_dates(s).len() ==> date_before(
                (#[trigger] dedup_dates(s)[i]).0,
                (#[trigger] dedup_dates(s)[j]).0,
            ),
    decreases s.len(),
{
    if s.len() > 0 {
        let p = s.drop_last();
        assert forall|i: int, j: int| 0 <= i < j < p.len() implies !(event_lt())(#[trigger] p[j], #[trigger] p[i]) by {
            assert(p[i] == s[i] && p[j] == s[j]);
        }
        lemma_dedup_dates_strict(p);
        lemma_dedup_dates_elements(p);
        let d = dedup_dates(p);
        let x = s.last();
        if !(d.len() > 0 && d.last().0 == x.0) {
            let r = dedup_dates(s);
            assert(r == d.push(x));
            assert forall|i: int| 0 <= i < d.len() implies date_before(#[trigger] d[i].0, x.0) by {
                assert(d.contains(d[i]));
                let k = choose|k: int| 0 <= k < p.len() && p[k] == d[i];
                assert(s[k] == d[i]);
                assert(!(event_lt())(s[s.len() - 1], s[k]));
                if d[i].0 == x.0 {
                    assert(i < d.len() - 1);
                    assert(date_before(d[i].0, d[d.len() - 1].0));
                    assert(s[s.len() - 2] == p.last());
                    assert(!(event_lt())(s[s.len() - 1], s[s.len() - 2]));
                }
            }
            assert forall|i: int, j: int| 0 <= i < j < r.len() implies date_before(
                (#[trigger] r[i]).0,
                (#[trigger] r[j]).0,
            ) by {
                assert(r[i] == d[i]);
                if j < d.len() {
                    assert(r[j] == d[j]);
                } else {
                    assert(r[j] == x);
                }
            }
        }
    }
}

/// Each asset's split events come sorted by date, one per date.
pub proof fn lemma_factors_by_date(s: Seq<SplitView>, start: CalendarDate, end: CalendarDate)
    ensures
        forall|k: int, i: int, j: int|
            0 <= k < split_factors(s, start, end).len() && 0 <= i < j < split_factors(s, start, end)[k].1.len()
                ==> date_before(
                (#[trigger] split_factors(s, start, end)[k].1[i]).0,
                (#[trigger] split_factors(s, start, end)[k].1[j]).0,
            ),
{
    lemma_event_order_weak();
    assert forall|k: int, i: int, j: int|
        0 <= k < split_factors(s, start, end).len() && 0 <= i < j < split_factors(s, start, end)[k].1.len()
            implies date_before(
        (#[trigger] split_factors(s, start, end)[k].1[i]).0,
        (#[trigger] split_factors(s, start, end)[k].1[j]).0,
    ) by {
        let asset = split_assets(s, start, end)[k];
        let evs = events_of(s, start, end, asset);
        lemma_isort_sorted(evs, event_lt());
        lemma_dedup_dates_strict(isort(evs, event_lt()));
    }
}
} // verus!
