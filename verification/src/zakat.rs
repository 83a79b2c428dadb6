//! Zakat: the 2.5% annual alms on wealth above the Nisab threshold.
//!
//! `net_base = liquid_cash + precious_metals + tradable_assets - short_term_debts`;
//! the alms due are `0.025 * net_base` when the base is positive and at or
//! above the Nisab, and nothing otherwise. A portfolio is first sorted
//! into those buckets by holding type and asset kind.
use vstd::prelude::*;

use rust_decimal::Decimal;

use crate::decimal::{
    abs_int, dec_abs, mantissa_bound, dec_add, dec_le, dec_lt, dec_mul, dec_sub, dec_text_dp, decimal_add, decimal_mul, decimal_sub, decimal_text_dp, max_units,
    pow10, Dec,
};
use crate::dates::{as_calendar, date_before, parse_date, parsed_ymd, CalendarDate};
use crate::holdings::AssetKind;
use crate::text::{decimal, decimal_string, opt_chars, owned, push_str};
use crate::tools::holdings::HoldingType;

verus! {

/// The figures an assessment starts from, all in one currency.
pub struct ZakatInputs {
    pub liquid_cash: Dec,
    pub precious_metals: Dec,
    pub tradable_assets: Dec,
    pub short_term_debts: Dec,
    pub nisab: Dec,
    pub currency: Option<String>,
}

/// The outcome of an assessment.
pub struct ZakatReport {
    pub total_assessable_assets: Dec,
    pub deductible_debts: Dec,
    pub net_zakat_base: Dec,
    pub nisab_threshold: Dec,
    pub is_above_nisab: bool,
    pub zakat_due: Dec,
    pub currency: Option<String>,
    pub notes: Vec<String>,
}

/// 2.5%.
pub open spec fn zakat_rate() -> Dec {
    Dec { mantissa: 25, scale: 3 }
}

pub open spec fn from_pair(p: (i128, u32)) -> Dec {
    Dec { mantissa: p.0, scale: p.1 }
}

pub open spec fn default_note() -> Seq<char> {
    "This is an arithmetic estimate, not religious guidance. Confirm the inputs and standard (gold-Nisab vs. silver-Nisab, school of jurisprudence) with your imam before paying."@
}

/// The figures fit the range of the arithmetic: each is a valid figure,
/// and each running sum (cash and metals; then the tradable assets; then
/// less the debts) stays within the largest value, by the one unit per
/// earlier step that the rounding of a sum can add.
pub open spec fn inputs_in_range(c: Dec, m: Dec, t: Dec, d: Dec, nisab: Dec) -> bool {
    &&& c.valid() && m.valid() && t.valid() && d.valid() && nisab.valid()
    &&& abs_int(c.units() + m.units()) <= max_units()
    &&& abs_int(c.units() + m.units() + t.units()) + pow10(28) <= max_units()
    &&& abs_int(c.units() + m.units() + t.units() - d.units()) + 2 * pow10(28) <= max_units()
}

/// The assessment of the four buckets against `nisab`: the total of the
/// assets, the net base, whether it is owed, and what is owed.
pub open spec fn assessed(c: Dec, m: Dec, t: Dec, d: Dec, nisab: Dec) -> (Dec, Dec, bool, Dec) {
    let total = from_pair(decimal_add(decimal_add(c.pair(), m.pair()), t.pair()));
    let net = from_pair(decimal_sub(total.pair(), d.pair()));
    let above = net.units() >= nisab.units() && net.units() > 0;
    let due = if above {
        from_pair(decimal_mul(net.pair(), zakat_rate().pair()))
    } else {
        Dec { mantissa: 0, scale: 0 }
    };
    (total, net, above, due)
}

pub open spec fn report_matches(r: ZakatReport, c: Dec, m: Dec, t: Dec, d: Dec, nisab: Dec) -> bool {
    let (total, net, above, due) = assessed(c, m, t, d, nisab);
    &&& r.total_assessable_assets == total
    &&& r.deductible_debts == d
    &&& r.net_zakat_base == net
    &&& r.nisab_threshold == nisab
    &&& r.is_above_nisab == above
    &&& r.zakat_due == due
}

/// Assesses the buckets: what is owed is 2.5% of the net base when that is
/// positive and at or above the Nisab, and nothing otherwise (a net
/// indebted user owes nothing whatever the assets). The report always
/// carries the disclaimer.
pub fn assess(inputs: ZakatInputs) -> (r: ZakatReport)
    requires
        inputs_in_range(
            inputs.liquid_cash,
            inputs.precious_metals,
            inputs.tradable_assets,
            inputs.short_term_debts,
            inputs.nisab,
        ),
    ensures
        report_matches(
            r,
            inputs.liquid_cash,
            inputs.precious_metals,
            inputs.tradable_assets,
            inputs.short_term_debts,
            inputs.nisab,
        ),
        opt_chars(r.currency) == opt_chars(inputs.currency),
        r.notes@.len() == 1 && r.notes@[0]@ == default_note(),
        r.total_assessable_assets.units() - (inputs.liquid_cash.units() + inputs.precious_metals.units()
            + inputs.tradable_assets.units()) < 2 * pow10(28),
        (inputs.liquid_cash.units() + inputs.precious_metals.units() + inputs.tradable_assets.units())
            - r.total_assessable_assets.units() < 2 * pow10(28),
        r.zakat_due.valid() && r.net_zakat_base.valid() && r.total_assessable_assets.valid(),
        r.is_above_nisab && r.net_zakat_base.scale + 3 <= 28 && abs_int(r.net_zakat_base.mantissa * 25)
            < mantissa_bound() ==> r.zakat_due.mantissa == r.net_zakat_base.mantissa * 25 && r.zakat_due.scale
            == r.net_zakat_base.scale + 3,
{
    let c = inputs.liquid_cash;
    let m = inputs.precious_metals;
    let t = inputs.tradable_assets;
    let d = inputs.short_term_debts;
    proof {
        crate::decimal::lemma_pow10_positive(28);
    }
    let cm = dec_add(c, m);
    let total = dec_add(cm, t);
    let net = dec_sub(total, d);
    let zero = Dec::zero();
    let above = dec_le(inputs.nisab, net) && dec_lt(zero, net);
    let rate = Dec { mantissa: 25, scale: 3 };
    let due = if above {
        proof {
            assert(rate.units() == 25 * pow10(25)) by {
                reveal_with_fuel(pow10, 4);
            }
            assert(pow10(28) == 1000 * pow10(25)) by {
                reveal_with_fuel(pow10, 4);
            }
            crate::decimal::lemma_pow10_positive(25);
            assert(abs_int(net.units()) <= 2 * max_units());
            assert(abs_int(net.units() * rate.units()) <= max_units() * pow10(28)) by (nonlinear_arith)
                requires
                    abs_int(net.units()) <= 2 * max_units(),
                    rate.units() == 25 * pow10(25),
                    pow10(28) == 1000 * pow10(25),
                    pow10(25) >= 1,
                    max_units() >= 0,
            ;
        }
        dec_mul(net, rate)
    } else {
        zero
    };
    let mut notes: Vec<String> = Vec::new();
    notes.push(
        owned(
            "This is an arithmetic estimate, not religious guidance. Confirm the inputs and standard (gold-Nisab vs. silver-Nisab, school of jurisprudence) with your imam before paying.",
        ),
    );
    ZakatReport {
        total_assessable_assets: total,
        deductible_debts: d,
        net_zakat_base: net,
        nisab_threshold: inputs.nisab,
        is_above_nisab: above,
        zakat_due: due,
        currency: inputs.currency,
        notes,
    }
}

/// Below the Nisab nothing is owed.
pub proof fn lemma_below_nisab_owes_nothing(c: Dec, m: Dec, t: Dec, d: Dec, nisab: Dec)
    requires
        assessed(c, m, t, d, nisab).1.units() < nisab.units(),
    ensures
        !assessed(c, m, t, d, nisab).2,
        assessed(c, m, t, d, nisab).3 == (Dec { mantissa: 0, scale: 0 }),
{
}

/// A user whose debts match or exceed the assets owes nothing, whatever
/// the Nisab.
pub proof fn lemma_net_indebted_owes_nothing(c: Dec, m: Dec, t: Dec, d: Dec, nisab: Dec)
    requires
        assessed(c, m, t, d, nisab).1.units() <= 0,
    ensures
        !assessed(c, m, t, d, nisab).2,
        assessed(c, m, t, d, nisab).3 == (Dec { mantissa: 0, scale: 0 }),
{
}

/// The Nisab boundary is inclusive: a positive base exactly at the Nisab
/// owes.
pub proof fn lemma_at_nisab_owes(c: Dec, m: Dec, t: Dec, d: Dec, nisab: Dec)
    requires
        assessed(c, m, t, d, nisab).1.units() == nisab.units(),
        nisab.units() > 0,
    ensures
        assessed(c, m, t, d, nisab).2,
        assessed(c, m, t, d, nisab).3 == from_pair(
            decimal_mul(assessed(c, m, t, d, nisab).1.pair(), zakat_rate().pair()),
        ),
{
}

/// One holding as the assessment sees it: its type, its asset kind, its
/// value in the base currency (negative for a liability) and, for a loan,
/// its origination date and term in whole years when they are known.
pub struct ZakatHolding {
    pub holding_type: HoldingType,
    pub asset_kind: Option<AssetKind>,
    pub value: Dec,
    pub origination_date: Option<CalendarDate>,
    pub loan_duration_years: Option<u32>,
}

/// A loan's terms as its metadata gives them: the origination date
/// (`YYYY-MM-DD`), kept when it parses, and the term in whole years, kept
/// when it fits a `u32`.
pub fn loan_terms(origination_date: &Option<String>, duration_years: Option<u64>) -> (r: (
    Option<CalendarDate>,
    Option<u32>,
))
    ensures
        r.0 == match origination_date {
            Some(t) => as_calendar(parsed_ymd(t@, "%Y-%m-%d"@)),
            None => None::<CalendarDate>,
        },
        r.1 == match duration_years {
            Some(y) => if y <= u32::MAX {
                Some(y as u32)
            } else {
                None::<u32>
            },
            None => None::<u32>,
        },
{
    let date = match origination_date {
        Some(t) => parse_date(t.as_str(), "%Y-%m-%d"),
        None => None,
    };
    let years = match duration_years {
        Some(y) => if y <= 0xffff_ffff {
            Some(y as u32)
        } else {
            None
        },
        None => None,
    };
    (date, years)
}

/// A liability is short-term when it matures within twelve months of
/// `today` (its maturity is the origination date plus the term), or when
/// its maturity is not known.
pub open spec fn matures_within_a_year(h: ZakatHolding, today: CalendarDate) -> bool {
    match (h.origination_date, h.loan_duration_years) {
        (Some(o), Some(y)) => {
            let my = o.year + y;
            let ly = today.year + 1;
            my < ly || (my == ly && (o.month < today.month || (o.month == today.month && o.day <= today.day)))
        },
        _ => true,
    }
}

fn matures_within_a_year_exec(h: &ZakatHolding, today: CalendarDate) -> (r: bool)
    ensures
        r == matures_within_a_year(*h, today),
{
    match (h.origination_date, h.loan_duration_years) {
        (Some(o), Some(y)) => {
            let my: i64 = o.year as i64 + y as i64;
            let ly: i64 = today.year as i64 + 1;
            my < ly || (my == ly && (o.month < today.month || (o.month == today.month && o.day <= today.day)))
        },
        _ => true,
    }
}

/// Where a holding goes.
pub enum Bucket {
    Debt,
    Liquid,
    Metal,
    Tradable,
    Excluded,
    /// Unclassified: counted as tradable, and reported to the user.
    Unclassified,
}

/// Liabilities maturing within a year are debts, longer ones are left out;
/// cash is liquid; precious metals are metals;
/// investments and private equity are tradable; property, vehicles,
/// collectibles (consumer use) and FX are left out; anything without a
/// known kind is counted as tradable and reported.
pub open spec fn bucket_of(h: ZakatHolding, today: CalendarDate) -> Bucket {
    match (h.holding_type, h.asset_kind) {
        (_, Some(AssetKind::Liability)) => if matures_within_a_year(h, today) {
            Bucket::Debt
        } else {
            Bucket::Excluded
        },
        (HoldingType::Cash, _) => Bucket::Liquid,
        (_, Some(AssetKind::PreciousMetal)) => Bucket::Metal,
        (_, Some(AssetKind::Investment)) => Bucket::Tradable,
        (_, Some(AssetKind::PrivateEquity)) => Bucket::Tradable,
        (_, Some(AssetKind::Property)) | (_, Some(AssetKind::Vehicle)) | (_, Some(AssetKind::Collectible)) => {
            Bucket::Excluded
        },
        (_, Some(AssetKind::Fx)) => Bucket::Excluded,
        (_, Some(AssetKind::Other)) | (_, None) => Bucket::Unclassified,
    }
}

/// The running totals of the buckets.
pub ghost struct Buckets {
    pub liquid: Dec,
    pub metals: Dec,
    pub tradable: Dec,
    pub debts: Dec,
    pub other_count: nat,
    pub other_value: Dec,
}

pub open spec fn plus(a: Dec, b: Dec) -> Dec {
    from_pair(decimal_add(a.pair(), b.pair()))
}

/// The buckets after the first `k` holdings, each sum taken with
/// rust_decimal's `+` in holding order; a liability adds its magnitude to
/// the debts.
pub open spec fn buckets(hs: Seq<ZakatHolding>, today: CalendarDate, k: int) -> Buckets
    decreases k,
{
    if k <= 0 {
        let z = Dec { mantissa: 0, scale: 0 };
        Buckets { liquid: z, metals: z, tradable: z, debts: z, other_count: 0, other_value: z }
    } else {
        let b = buckets(hs, today, k - 1);
        let h = hs[k - 1];
        match bucket_of(h, today) {
            Bucket::Debt => Buckets {
                debts: plus(b.debts, Dec { mantissa: abs_int(h.value.mantissa as int) as i128, scale: h.value.scale }),
                ..b
            },
            Bucket::Liquid => Buckets { liquid: plus(b.liquid, h.value), ..b },
            Bucket::Metal => Buckets { metals: plus(b.metals, h.value), ..b },
            Bucket::Tradable => Buckets { tradable: plus(b.tradable, h.value), ..b },
            Bucket::Excluded => b,
            Bucket::Unclassified => Buckets {
                tradable: plus(b.tradable, h.value),
                other_count: b.other_count + 1,
                other_value: plus(b.other_value, h.value),
                ..b
            },
        }
    }
}

/// A liability that matures more than a year after `today` leaves every
/// bucket as it was: it is not deducted.
pub proof fn lemma_long_dated_liability_not_deducted(hs: Seq<ZakatHolding>, h: ZakatHolding, today: CalendarDate)
    requires
        h.asset_kind == Some(AssetKind::Liability),
        !matures_within_a_year(h, today),
    ensures
        buckets(hs.push(h), today, hs.len() + 1int) == buckets(hs, today, hs.len() as int),
{
    assert(hs.push(h)[hs.len() as int] == h);
    lemma_buckets_prefix(hs, h, today, hs.len() as int);
}

proof fn lemma_buckets_prefix(hs: Seq<ZakatHolding>, h: ZakatHolding, today: CalendarDate, k: int)
    requires
        0 <= k <= hs.len(),
    ensures
        buckets(hs.push(h), today, k) == buckets(hs, today, k),
    decreases k,
{
    if k > 0 {
        lemma_buckets_prefix(hs, h, today, k - 1);
        assert(hs.push(h)[k - 1] == hs[k - 1]);
    }
}

pub open spec fn magnitude(hs: Seq<ZakatHolding>, k: int) -> int
    decreases k,
{
    if k <= 0 {
        0
    } else {
        magnitude(hs, k - 1) + abs_int(hs[k - 1].value.units())
    }
}

/// The holdings fit the range of the arithmetic: valid figures whose
/// magnitudes, with room for each sum to round, stay below the largest
/// value.
pub open spec fn holdings_in_range(hs: Seq<ZakatHolding>, nisab: Dec) -> bool {
    &&& nisab.valid()
    &&& forall|i: int| 0 <= i < hs.len() ==> (#[trigger] hs[i]).value.valid()
    &&& magnitude(hs, hs.len() as int) + (hs.len() + 3) * pow10(28) <= max_units()
}

pub proof fn lemma_magnitude_grows(hs: Seq<ZakatHolding>, j: int, k: int)
    requires
        0 <= j <= k <= hs.len(),
    ensures
        0 <= magnitude(hs, j) <= magnitude(hs, k),
    decreases k,
{
    if j < k {
        lemma_magnitude_grows(hs, j, k - 1);
    } else if k > 0 {
        lemma_magnitude_grows(hs, k - 1, k - 1);
    }
}

pub open spec fn portfolio_note() -> Seq<char> {
    "Property, collectibles, and vehicles were excluded (consumer-use, not held for resale). Long-term-held stocks/ETFs, crypto, sukuk, treasuries and private equity are included as `tradable assets` per the most common modern interpretation."@
}

/// The note on unclassified holdings that were counted as tradable.
pub open spec fn unclassified_note(count: nat, value: Dec, currency: Seq<char>) -> Seq<char> {
    decimal(count) + " unclassified holding(s) worth "@ + decimal_text_dp(value.pair(), 2) + " "@ + currency
        + " were included as tradable assets (conservative inclusion). Set each asset's `kind` correctly under Settings → Assets so this is no longer ambiguous."@
}

fn route(holdings: &Vec<ZakatHolding>, today: CalendarDate, Ghost(nisab): Ghost<Dec>) -> (r: (Dec, Dec, Dec, Dec, usize, Dec))
    requires
        holdings_in_range(holdings@, nisab),
    ensures
        ({
            let b = buckets(holdings@, today, holdings@.len() as int);
            &&& r.0 == b.liquid && r.1 == b.metals && r.2 == b.tradable && r.3 == b.debts
            &&& r.4 == b.other_count && r.5 == b.other_value
        }),
        inputs_in_range(r.0, r.1, r.2, r.3, nisab),
        r.5.valid(),
{
    let ghost hs = holdings@;
    let ghost p = pow10(28);
    proof {
        crate::decimal::lemma_pow10_positive(28);
        lemma_magnitude_grows(hs, 0, hs.len() as int);
        assert((hs.len() + 3) * p == hs.len() * p + 3 * p) by (nonlinear_arith);
    }
    let zero = Dec::zero();
    let mut liquid = zero;
    let mut metals = zero;
    let mut tradable = zero;
    let mut debts = zero;
    let mut other_count: usize = 0;
    let mut other_value = zero;
    let mut i: usize = 0;
    while i < holdings.len()
        invariant
            hs == holdings@,
            p == pow10(28),
            p >= 1,
            i <= hs.len(),
            holdings_in_range(hs, nisab),
            ({
                let b = buckets(hs, today, i as int);
                &&& liquid == b.liquid && metals == b.metals && tradable == b.tradable && debts == b.debts
                &&& other_count == b.other_count && other_value == b.other_value
            }),
            liquid.valid() && metals.valid() && tradable.valid() && debts.valid() && other_value.valid(),
            abs_int(liquid.units()) + abs_int(metals.units()) + abs_int(tradable.units()) + abs_int(debts.units())
                <= magnitude(hs, i as int) + i * p,
            abs_int(other_value.units()) <= magnitude(hs, i as int) + i * p,
            other_count <= i,
            (hs.len() + 3) * p == hs.len() * p + 3 * p,
            magnitude(hs, hs.len() as int) + hs.len() * p + 3 * p <= max_units(),
        decreases hs.len() - i,
    {
        let h = &holdings[i];
        let v = h.value;
        proof {
            assert(hs[i as int].value.valid());
            lemma_magnitude_grows(hs, i + 1, hs.len() as int);
            assert(magnitude(hs, i + 1) == magnitude(hs, i as int) + abs_int(v.units()));
            assert((i + 1) * p == i * p + p) by (nonlinear_arith);
            assert(hs.len() * p >= (i + 1) * p) by (nonlinear_arith)
                requires
                    hs.len() >= i + 1,
                    p >= 1,
            ;
        }
        match (&h.holding_type, &h.asset_kind) {
            (_, Some(AssetKind::Liability)) => {
                if matures_within_a_year_exec(h, today) {
                    debts = dec_add(debts, dec_abs(v));
                }
            },
            (HoldingType::Cash, _) => {
                liquid = dec_add(liquid, v);
            },
            (_, Some(AssetKind::PreciousMetal)) => {
                metals = dec_add(metals, v);
            },
            (_, Some(AssetKind::Investment)) => {
                tradable = dec_add(tradable, v);
            },
            (_, Some(AssetKind::PrivateEquity)) => {
                tradable = dec_add(tradable, v);
            },
            (_, Some(AssetKind::Property)) | (_, Some(AssetKind::Vehicle)) | (_, Some(AssetKind::Collectible)) => {},
            (_, Some(AssetKind::Fx)) => {},
            (_, Some(AssetKind::Other)) | (_, None) => {
                tradable = dec_add(tradable, v);
                other_count = other_count + 1;
                other_value = dec_add(other_value, v);
            },
        }
        i = i + 1;
    }
    proof {
        assert(i == hs.len());
    }
    (liquid, metals, tradable, debts, other_count, other_value)
}

/// Assesses a portfolio on `today`: each holding goes to its bucket
/// ([`bucket_of`]),
/// the buckets are assessed against `nisab` in `base_currency`, and the
/// report says what was left out and, when unclassified holdings were
/// counted as tradable, how many and what they were worth.
pub fn assess_portfolio_holdings(
    holdings: &Vec<ZakatHolding>,
    base_currency: &str,
    nisab: Dec,
    today: CalendarDate,
) -> (r:
    ZakatReport)
    requires
        holdings_in_range(holdings@, nisab),
    ensures
        ({
            let b = buckets(holdings@, today, holdings@.len() as int);
            &&& report_matches(r, b.liquid, b.metals, b.tradable, b.debts, nisab)
            &&& r.notes@.len() == if b.other_count > 0 {
                3int
            } else {
                2int
            }
            &&& b.other_count > 0 ==> r.notes@[2]@ == unclassified_note(b.other_count, b.other_value, base_currency@)
        }),
        opt_chars(r.currency) == Some(base_currency@),
        r.notes@[0]@ == default_note(),
        r.notes@[1]@ == portfolio_note(),
{
    let (liquid, metals, tradable, debts, other_count, other_value) = route(holdings, today, Ghost(nisab));
    let mut report = assess(
        ZakatInputs {
            liquid_cash: liquid,
            precious_metals: metals,
            tradable_assets: tradable,
            short_term_debts: debts,
            nisab,
            currency: Some(owned(base_currency)),
        },
    );
    report.notes.push(
        owned(
            "Property, collectibles, and vehicles were excluded (consumer-use, not held for resale). Long-term-held stocks/ETFs, crypto, sukuk, treasuries and private equity are included as `tradable assets` per the most common modern interpretation.",
        ),
    );
    if other_count > 0 {
        let mut note = decimal_string(other_count);
        push_str(&mut note, " unclassified holding(s) worth ");
        let worth = dec_text_dp(other_value, 2);
        push_str(&mut note, worth.as_str());
        push_str(&mut note, " ");
        push_str(&mut note, base_currency);
        push_str(
            &mut note,
            " were included as tradable assets (conservative inclusion). Set each asset's `kind` correctly under Settings → Assets so this is no longer ambiguous.",
        );
        report.notes.push(note);
    }
    report
}

/// A liability is a deductible debt exactly when it falls due no later than
/// the same day a year from today (its due day being its origination day,
/// `term` years on), or when its due day is unknown; otherwise it is left
/// out.
pub proof fn lemma_debt_within_twelve_months(h: ZakatHolding, today: CalendarDate)
    requires
        h.asset_kind == Some(AssetKind::Liability),
    ensures
        match (h.origination_date, h.loan_duration_years) {
            (Some(o), Some(y)) => o.year + y <= i32::MAX && today.year < i32::MAX ==> {
                &&& bucket_of(h, today) == Bucket::Debt <==> !date_before(
                    (CalendarDate { year: (today.year + 1) as i32, month: today.month, day: today.day }),
                    (CalendarDate { year: (o.year + y) as i32, month: o.month, day: o.day }),
                )
                &&& bucket_of(h, today) == Bucket::Excluded <==> date_before(
                    (CalendarDate { year: (today.year + 1) as i32, month: today.month, day: today.day }),
                    (CalendarDate { year: (o.year + y) as i32, month: o.month, day: o.day }),
                )
            },
            _ => bucket_of(h, today) == Bucket::Debt,
        },
{
}

} // verus!
