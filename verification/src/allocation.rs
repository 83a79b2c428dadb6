//! Portfolio allocation by taxonomy: shares of a total as two-decimal
//! percentages that add up to 100.00 (largest-remainder rounding), and the
//! roll-up of holdings into the categories of a taxonomy.
use vstd::prelude::*;

use crate::text::{opt_chars, owned, str_eq};
use vstd::relations::injective_on;
use vstd::set_lib::{lemma_int_range, lemma_map_size, lemma_subset_equality, set_int_range};
use crate::tools::holdings::HoldingType;
use crate::decimal::{
    abs_int, dec_add, dec_div, dec_lt, dec_mul, dec_round_dp, dec_sub, dec_trunc, decimal_add, decimal_div, decimal_mul,
    decimal_sub, fits_at, lemma_pow10_positive, mantissa_bound, max_units, pow10, rounded, truncated, Dec,
};

verus! {

pub open spec fn from_pair(p: (i128, u32)) -> Dec {
    Dec { mantissa: p.0, scale: p.1 }
}

pub open spec fn from_wide(p: (int, u32)) -> Dec {
    Dec { mantissa: p.0 as i128, scale: p.1 }
}

pub open spec fn hundred() -> Dec {
    Dec { mantissa: 100, scale: 0 }
}

pub open spec fn cent() -> Dec {
    Dec { mantissa: 1, scale: 2 }
}

/// A row's share of the total as a percentage: `value / total * 100`.
pub open spec fn exact_pct(v: Dec, total: Dec) -> Dec {
    from_pair(decimal_mul(decimal_div(v.pair(), total.pair()), hundred().pair()))
}

/// The percentage cut to two decimals.
pub open spec fn floored_pct(v: Dec, total: Dec) -> Dec {
    from_wide(truncated(exact_pct(v, total), 2))
}

/// What the cut left out.
pub open spec fn remainder_pct(v: Dec, total: Dec) -> Dec {
    from_pair(decimal_sub(exact_pct(v, total).pair(), floored_pct(v, total).pair()))
}

/// The sum of the first `k` cut percentages, added in row order.
pub open spec fn floor_sum(values: Seq<Dec>, total: Dec, k: int) -> Dec
    decreases k,
{
    if k <= 0 {
        Dec { mantissa: 0, scale: 0 }
    } else {
        from_pair(decimal_add(floor_sum(values, total, k - 1).pair(), floored_pct(values[k - 1], total).pair()))
    }
}

/// How many cents the cut percentages fall short of 100.00:
/// `((100 - sum) * 100)` rounded to a whole number, read as an `i64`
/// (zero when it does not fit one).
pub open spec fn deficit_cents(values: Seq<Dec>, total: Dec) -> int {
    let short = from_pair(decimal_sub(hundred().pair(), floor_sum(values, total, values.len() as int).pair()));
    let cents = rounded(from_pair(decimal_mul(short.pair(), hundred().pair())), 0).0;
    if i64::MIN <= cents <= i64::MAX {
        cents
    } else {
        0
    }
}

/// Row `i` takes its extra cent before row `j`: a larger remainder first,
/// then a larger cut percentage, then the earlier row.
pub open spec fn goes_before(values: Seq<Dec>, total: Dec, i: int, j: int) -> bool {
    let ri = remainder_pct(values[i], total).units();
    let rj = remainder_pct(values[j], total).units();
    let fi = floored_pct(values[i], total).units();
    let fj = floored_pct(values[j], total).units();
    ri > rj || (ri == rj && (fi > fj || (fi == fj && i < j)))
}

/// How many of the first `k` rows go before row `i`.
pub open spec fn rank_upto(values: Seq<Dec>, total: Dec, i: int, k: int) -> nat
    decreases k,
{
    if k <= 0 {
        0
    } else {
        rank_upto(values, total, i, k - 1) + if goes_before(values, total, k - 1, i) {
            1nat
        } else {
            0nat
        }
    }
}

pub open spec fn rank(values: Seq<Dec>, total: Dec, i: int) -> nat {
    rank_upto(values, total, i, values.len() as int)
}

proof fn lemma_rank_bound(values: Seq<Dec>, total: Dec, i: int, k: int)
    requires
        0 <= i,
        0 <= k,
    ensures
        rank_upto(values, total, i, k) + (if i < k {
            1int
        } else {
            0int
        }) <= k,
    decreases k,
{
    if k > 0 {
        lemma_rank_bound(values, total, i, k - 1);
    }
}

proof fn lemma_rank_grows(values: Seq<Dec>, total: Dec, i: int, j: int, k: int)
    requires
        0 <= i,
        0 <= k,
        goes_before(values, total, i, j),
    ensures
        rank_upto(values, total, i, k) + (if i < k {
            1int
        } else {
            0int
        }) <= rank_upto(values, total, j, k),
    decreases k,
{
    if k > 0 {
        lemma_rank_grows(values, total, i, j, k - 1);
        let m = k - 1;
        if goes_before(values, total, m, i) {
            assert(goes_before(values, total, m, j));
        }
    }
}

/// Rows that differ take different places in the order, every place below
/// the number of rows.
proof fn lemma_rank_injective(values: Seq<Dec>, total: Dec)
    ensures
        forall|i: int| 0 <= i < values.len() ==> #[trigger] rank(values, total, i) < values.len(),
        forall|i: int, j: int|
            0 <= i < values.len() && 0 <= j < values.len() && i != j ==> #[trigger] rank(values, total, i) != #[trigger] rank(
                values,
                total,
                j,
            ),
{
    let n = values.len() as int;
    assert forall|i: int| 0 <= i < values.len() implies #[trigger] rank(values, total, i) < values.len() by {
        lemma_rank_bound(values, total, i, n);
    }
    assert forall|i: int, j: int|
        0 <= i < values.len() && 0 <= j < values.len() && i != j implies #[trigger] rank(values, total, i) != #[trigger] rank(
            values,
            total,
            j,
        ) by {
        if goes_before(values, total, i, j) {
            lemma_rank_grows(values, total, i, j, n);
        } else {
            assert(goes_before(values, total, j, i));
            lemma_rank_grows(values, total, j, i, n);
        }
    }
}

/// How many of the first `k` rows take one of the first `d` places.
pub open spec fn count_below(values: Seq<Dec>, total: Dec, d: int, k: int) -> nat
    decreases k,
{
    if k <= 0 {
        0
    } else {
        count_below(values, total, d, k - 1) + if rank(values, total, k - 1) < d {
            1nat
        } else {
            0nat
        }
    }
}

proof fn lemma_count_below_set(values: Seq<Dec>, total: Dec, d: int, k: int)
    requires
        0 <= k,
    ensures
        set_int_range(0, k).filter(|j: int| rank(values, total, j) < d).finite(),
        count_below(values, total, d, k) == set_int_range(0, k).filter(|j: int| rank(values, total, j) < d).len(),
    decreases k,
{
    let s = set_int_range(0, k).filter(|j: int| rank(values, total, j) < d);
    if k == 0 {
        assert(s =~= Set::<int>::empty());
    } else {
        lemma_count_below_set(values, total, d, k - 1);
        let p = set_int_range(0, k - 1).filter(|j: int| rank(values, total, j) < d);
        if rank(values, total, k - 1) < d {
            assert(s =~= p.insert(k - 1));
        } else {
            assert(s =~= p);
        }
    }
}

/// With the places a permutation of the rows, exactly `d` rows take one of
/// the first `d` places.
proof fn lemma_count_below_all(values: Seq<Dec>, total: Dec, d: int)
    requires
        0 <= d <= values.len(),
    ensures
        count_below(values, total, d, values.len() as int) == d,
{
    let n = values.len() as int;
    lemma_rank_injective(values, total);
    let idx = set_int_range(0, n);
    let f = |j: int| rank(values, total, j) as int;
    lemma_int_range(0, n);
    lemma_int_range(0, d);
    assert(injective_on(f, idx));
    let img = idx.map(f);
    lemma_map_size(idx, img, f);
    assert(img.subset_of(set_int_range(0, n)));
    lemma_subset_equality(img, set_int_range(0, n));
    let low = idx.filter(|j: int| rank(values, total, j) < d);
    lemma_count_below_set(values, total, d, n);
    assert(low.map(f) =~= set_int_range(0, d)) by {
        assert forall|r: int| set_int_range(0, d).contains(r) implies #[trigger] low.map(f).contains(r) by {
            assert(set_int_range(0, n).contains(r));
            assert(img.contains(r));
            let j = choose|j: int| idx.contains(j) && f(j) == r;
            assert(low.contains(j));
        }
    }
    assert(injective_on(f, low));
    lemma_map_size(low, set_int_range(0, d), f);
}

/// The percentage of row `i`: its cut percentage, plus a cent when it is
/// among the first `deficit` rows in [`goes_before`] order.
pub open spec fn lrm_pct(values: Seq<Dec>, total: Dec, i: int) -> Dec {
    if rank(values, total, i) < deficit_cents(values, total) {
        from_pair(decimal_add(floored_pct(values[i], total).pair(), cent().pair()))
    } else {
        floored_pct(values[i], total)
    }
}

/// A bound on a row's percentage (times 10^28), with a unit to spare for
/// rounding.
pub open spec fn pct_bound(v: Dec, total: Dec) -> int {
    100 * abs_int(v.units()) * pow10(28) / total.units() + 102 * pow10(28)
}

pub open spec fn pct_bound_sum(values: Seq<Dec>, total: Dec, k: int) -> int
    decreases k,
{
    if k <= 0 {
        0
    } else {
        pct_bound_sum(values, total, k - 1) + pct_bound(values[k - 1], total)
    }
}

/// The rows fit the range of the arithmetic: valid figures whose
/// percentages, with room for rounding, add up to well below the largest
/// value.
pub open spec fn lrm_in_range(values: Seq<Dec>, total: Dec) -> bool {
    &&& total.valid()
    &&& forall|i: int| 0 <= i < values.len() ==> (#[trigger] values[i]).valid()
    &&& total.units() > 0 ==> 200 * pct_bound_sum(values, total, values.len() as int) + 20000 * pow10(28) <= max_units()
}

/// The cut percentage and the remainder of one row.
fn row_figures(v: Dec, total: Dec) -> (r: (Dec, Dec))
    requires
        v.valid(),
        total.valid(),
        total.units() > 0,
        4 * pct_bound(v, total) + 400 * pow10(28) <= max_units(),
    ensures
        r.0 == floored_pct(v, total),
        r.1 == remainder_pct(v, total),
        r.0.valid(),
        r.1.valid(),
        abs_int(r.0.units()) <= pct_bound(v, total),
        r.0.scale <= 2,
        v.units() >= 0 ==> {
            &&& r.0.units() >= 0
            &&& r.0.units() * total.units() <= 100 * v.units() * pow10(28) + 30000 * (v.units() + total.units())
            &&& 100 * v.units() * pow10(28) < (r.0.units() + pow10(26)) * total.units() + 30000 * (v.units()
                + total.units())
        },
{
    let ghost p = pow10(28);
    let ghost t = total.units();
    let ghost vv = abs_int(v.units());
    let ghost bound = pct_bound(v, total);
    proof {
        lemma_pow10_positive(28);
        let fl = 100 * vv * p / t;
        assert(100 * vv * p < (fl + 1) * t) by (nonlinear_arith)
            requires
                t > 0,
                fl == 100 * vv * p / t,
                vv >= 0,
                p >= 1,
        ;
        assert(fl + 1 <= max_units());
        assert(vv * p <= max_units() * t) by (nonlinear_arith)
            requires
                100 * vv * p < (fl + 1) * t,
                fl + 1 <= max_units(),
                t > 0,
                vv >= 0,
                p >= 1,
        ;
        assert(abs_int(v.units()) * pow10(28) <= max_units() * abs_int(total.units()));
        lemma_pow10_positive((28 - total.scale) as nat);
        assert(total.mantissa != 0) by (nonlinear_arith)
            requires
                total.units() > 0,
                total.units() == total.mantissa * pow10((28 - total.scale) as nat),
        ;
    }
    let q = dec_div(v, total);
    let hundred_fig = Dec { mantissa: 100, scale: 0 };
    proof {
        assert(hundred_fig.units() == 100 * p);
        let qu = q.units();
        let fl = 100 * vv * p / t;
        assert(abs_int(qu * t - v.units() * p) < p * t);
        assert(abs_int(qu) * t < vv * p + p * t) by (nonlinear_arith)
            requires
                abs_int(qu * t - v.units() * p) < p * t,
                vv == abs_int(v.units()),
                t > 0,
                p >= 1,
        ;
        assert(100 * vv * p < (fl + 1) * t) by (nonlinear_arith)
            requires
                t > 0,
                fl == 100 * vv * p / t,
                vv >= 0,
                p >= 1,
        ;
        assert(100 * abs_int(qu) < fl + 1 + 100 * p) by (nonlinear_arith)
            requires
                abs_int(qu) * t < vv * p + p * t,
                100 * vv * p < (fl + 1) * t,
                t > 0,
        ;
        let mu = max_units();
        let aq = abs_int(qu);
        assert(aq * (100 * p) <= mu * p) by (nonlinear_arith)
            requires
                100 * aq < fl + 1 + 100 * p,
                fl + 102 * p <= mu,
                p >= 1,
        ;
        assert(abs_int(qu * (100 * p)) == aq * (100 * p)) by (nonlinear_arith)
            requires
                aq == abs_int(qu),
                p >= 1,
        ;
    }
    let e = dec_mul(q, hundred_fig);
    proof {
        let qu = q.units();
        let fl = 100 * vv * p / t;
        assert(abs_int(e.units() * p - qu * (100 * p)) < p * p);
        assert(abs_int(e.units()) < 100 * abs_int(qu) + p) by (nonlinear_arith)
            requires
                abs_int(e.units() * p - qu * (100 * p)) < p * p,
                p >= 1,
        ;
        assert(100 * vv * p < (fl + 1) * t) by (nonlinear_arith)
            requires
                t > 0,
                fl == 100 * vv * p / t,
                vv >= 0,
                p >= 1,
        ;
        assert(abs_int(qu) * t < vv * p + p * t) by (nonlinear_arith)
            requires
                abs_int(qu * t - v.units() * p) < p * t,
                vv == abs_int(v.units()),
                t > 0,
                p >= 1,
        ;
        assert(100 * abs_int(qu) < fl + 1 + 100 * p) by (nonlinear_arith)
            requires
                abs_int(qu) * t < vv * p + p * t,
                100 * vv * p < (fl + 1) * t,
                t > 0,
        ;
        assert(abs_int(e.units()) <= bound);
        crate::decimal::lemma_truncated_smaller(e, 2);
    }
    let f = dec_trunc(e, 2);
    proof {
        if v.units() >= 0 {
            lemma_share_close(v, total, q, e);
            lemma_pow10_positive((28 - e.scale) as nat);
            assert(e.mantissa >= 0) by (nonlinear_arith)
                requires
                    e.units() >= 0,
                    e.units() == e.mantissa * pow10((28 - e.scale) as nat),
                    pow10((28 - e.scale) as nat) >= 1,
            ;
            crate::decimal::lemma_truncated_close(e, 2);
            let t = total.units();
            let fu = f.units();
            let eu = e.units();
            let vu = v.units();
            assert(fu * t <= eu * t) by (nonlinear_arith)
                requires
                    fu <= eu,
                    t > 0,
            ;
            assert(eu * t < (fu + pow10(26)) * t) by (nonlinear_arith)
                requires
                    eu - fu < pow10(26),
                    t > 0,
            ;
            assert(abs_int(eu * t - 100 * vu * pow10(28)) <= 30000 * (vu + t));
        }
    }
    let rem = dec_sub(e, f);
    (f, rem)
}

proof fn lemma_pow10_26()
    ensures
        pow10(26) == 100_000_000_000_000_000_000_000_000,
        pow10(28) == 10_000_000_000_000_000_000_000_000_000,
{
    reveal_with_fuel(pow10, 29);
}

/// A share worked out as `v / total * 100` is off from the exact share by
/// at most 30000 units (times `total`).
proof fn lemma_share_close(v: Dec, total: Dec, q: Dec, e: Dec)
    requires
        v.units() >= 0,
        total.units() > 0,
        abs_int(q.units() * total.units() - v.units() * pow10(28)) <= 100 * (abs_int(v.units()) + abs_int(
            total.units(),
        )),
        q.units() >= 0,
        pow10(28) * abs_int(e.units() * pow10(28) - q.units() * (100 * pow10(28))) <= 100 * pow10(28) * pow10(
            28,
        ) + 100 * abs_int(q.units() * (100 * pow10(28))),
    ensures
        abs_int(e.units() * total.units() - 100 * v.units() * pow10(28)) <= 30000 * (v.units() + total.units()),
{
    lemma_pow10_26();
    let p = pow10(28);
    let t = total.units();
    let vu = v.units();
    let qu = q.units();
    let eu = e.units();
    let a = qu * t - vu * p;
    let b = eu * p - qu * (100 * p);
    let x = eu * t - 100 * vu * p;
    assert(abs_int(qu * (100 * p)) == 100 * p * qu) by (nonlinear_arith)
        requires
            qu >= 0,
            p >= 1,
    ;
    assert(100 * abs_int(qu * (100 * p)) == 10000 * p * qu) by (nonlinear_arith)
        requires
            abs_int(qu * (100 * p)) == 100 * p * qu,
    ;
    assert(p * abs_int(b) <= 100 * p * p + 10000 * p * qu);
    assert(abs_int(b) <= 100 * p + 10000 * qu) by (nonlinear_arith)
        requires
            p * abs_int(b) <= 100 * p * p + 10000 * p * qu,
            p >= 1,
    ;
    assert(p * x == t * b + 100 * p * a) by (nonlinear_arith)
        requires
            a == qu * t - vu * p,
            b == eu * p - qu * (100 * p),
            x == eu * t - 100 * vu * p,
    ;
    assert(abs_int(t * b) <= 100 * p * t + 10000 * (qu * t)) by (nonlinear_arith)
        requires
            abs_int(b) <= 100 * p + 10000 * qu,
            t > 0,
    ;
    assert(qu * t <= 100 * (vu + t) + vu * p);
    assert(abs_int(100 * p * a) <= 10000 * p * (vu + t)) by (nonlinear_arith)
        requires
            abs_int(a) <= 100 * (vu + t),
            p >= 1,
    ;
    assert(1000000 * (vu + t) <= p * (vu + t)) by (nonlinear_arith)
        requires
            p == 10_000_000_000_000_000_000_000_000_000,
            vu >= 0,
            t > 0,
    ;
    assert(abs_int(p * x) <= 30000 * p * (vu + t)) by (nonlinear_arith)
        requires
            p * x == t * b + 100 * p * a,
            abs_int(t * b) <= 100 * p * t + 10000 * (qu * t),
            qu * t <= 100 * (vu + t) + vu * p,
            abs_int(100 * p * a) <= 10000 * p * (vu + t),
            1000000 * (vu + t) <= p * (vu + t),
            vu >= 0,
            t > 0,
            p >= 1,
    ;
    assert(abs_int(x) <= 30000 * (vu + t)) by (nonlinear_arith)
        requires
            abs_int(p * x) <= 30000 * p * (vu + t),
            p >= 1,
    ;
}

pub proof fn lemma_pct_bound_sum_grows(values: Seq<Dec>, total: Dec, j: int, k: int)
    requires
        0 <= j <= k <= values.len(),
        total.units() > 0,
    ensures
        pct_bound_sum(values, total, j) + (k - j) * 102 * pow10(28) <= pct_bound_sum(values, total, k),
    decreases k,
{
    lemma_pow10_positive(28);
    if j < k {
        lemma_pct_bound_sum_grows(values, total, j, k - 1);
        let v = values[k - 1];
        assert(100 * abs_int(v.units()) * pow10(28) / total.units() >= 0) by (nonlinear_arith)
            requires
                total.units() > 0,
                pow10(28) >= 1,
        ;
        assert((k - j) * 102 * pow10(28) == (k - 1 - j) * 102 * pow10(28) + 102 * pow10(28))
            by (nonlinear_arith);
        assert(pct_bound_sum(values, total, k) == pct_bound_sum(values, total, k - 1) + pct_bound(v, total));
    } else {
        assert((k - j) * 102 * pow10(28) == 0) by (nonlinear_arith)
            requires
                k == j,
        ;
    }
}

pub proof fn lemma_pct_bound_sum_lower(values: Seq<Dec>, total: Dec, k: int)
    requires
        0 <= k <= values.len(),
        total.units() > 0,
    ensures
        pct_bound_sum(values, total, k) >= k * 102 * pow10(28),
{
    lemma_pct_bound_sum_grows(values, total, 0, k);
}

/// The sum of the values of figures.
pub open spec fn units_total(s: Seq<Dec>) -> int
    decreases s.len(),
{
    if s.len() == 0 {
        0
    } else {
        units_total(s.drop_last()) + s.last().units()
    }
}

proof fn lemma_pow10_low()
    ensures
        pow10(27) == 10 * pow10(26),
        pow10(28) == 100 * pow10(26),
        pow10(26) >= 1,
{
    reveal_with_fuel(pow10, 3);
    lemma_pow10_positive(26);
}

/// A value below 2^96 hundred-octillionths fits at any scale up to two.
proof fn lemma_low_scale_fits(u: int, s: u32)
    requires
        s <= 2,
        abs_int(u) < mantissa_bound() * pow10(26),
    ensures
        fits_at(u, s),
{
    lemma_pow10_low();
    let q = pow10((28 - s) as nat);
    assert(q >= pow10(26)) by {
        if s == 0 {
            assert(q == pow10(28));
        } else if s == 1 {
            assert(q == pow10(27));
        } else {
            assert(q == pow10(26));
        }
    }
    assert(mantissa_bound() * pow10(26) <= mantissa_bound() * q) by (nonlinear_arith)
        requires
            q >= pow10(26),
            mantissa_bound() > 0,
    ;
}

/// `round_dp(short * 100, 0)` for a figure of at most two decimals is the
/// shortfall counted in cents, exactly.
proof fn lemma_whole_cents(short: Dec, cents: Dec, whole_m: int, whole_s: u32)
    requires
        short.scale <= 2,
        cents.mantissa == short.mantissa * 100,
        short.mantissa != 0 ==> cents.scale == short.scale,
        short.mantissa == 0 ==> cents.scale == 0,
        (whole_m, whole_s) == rounded(cents, 0),
    ensures
        whole_m * pow10(26) == short.units(),
        whole_s == 0,
        abs_int(whole_m) <= abs_int(short.mantissa as int) * 100,
{
    lemma_pow10_low();
    let m = short.mantissa as int;
    let p26 = pow10(26);
    let a = abs_int(m);
    assert(abs_int(m * 100) == a * 100);
    if m == 0 {
        assert(short.units() == 0) by (nonlinear_arith)
            requires
                m == 0,
                short.units() == m * pow10((28 - short.scale) as nat),
        ;
    } else if short.scale == 0 {
        assert(short.units() == m * pow10(28));
        assert(m * (100 * p26) == (m * 100) * p26) by (nonlinear_arith);
    } else if short.scale == 1 {
        assert(pow10(1) == 10) by {
            reveal_with_fuel(pow10, 2);
        }
        assert((a * 100) / 10 == a * 10 && (a * 100) % 10 == 0) by (nonlinear_arith)
            requires
                a >= 0,
        ;
        assert(short.units() == m * pow10(27));
        assert(m * (10 * p26) == (m * 10) * p26) by (nonlinear_arith);
    } else {
        assert(pow10(2) == 100) by {
            reveal_with_fuel(pow10, 3);
        }
        assert((a * 100) / 100 == a && (a * 100) % 100 == 0) by (nonlinear_arith)
            requires
                a >= 0,
        ;
        assert(short.units() == m * pow10(26));
    }
}

fn goes_before_exec(rems: &Vec<Dec>, floors: &Vec<Dec>, i: usize, j: usize, Ghost(values): Ghost<Seq<Dec>>, Ghost(
    total,
): Ghost<Dec>) -> (r: bool)
    requires
        i < rems@.len() == floors@.len() == values.len(),
        j < rems@.len(),
        forall|k: int| 0 <= k < values.len() ==> #[trigger] rems@[k] == remainder_pct(values[k], total),
        forall|k: int| 0 <= k < values.len() ==> #[trigger] floors@[k] == floored_pct(values[k], total),
        forall|k: int| 0 <= k < values.len() ==> (#[trigger] rems@[k]).valid(),
        forall|k: int| 0 <= k < values.len() ==> (#[trigger] floors@[k]).valid(),
    ensures
        r == goes_before(values, total, i as int, j as int),
{
    let ri = rems[i];
    let rj = rems[j];
    let fi = floors[i];
    let fj = floors[j];
    if dec_lt(rj, ri) {
        true
    } else if dec_lt(ri, rj) {
        false
    } else if dec_lt(fj, fi) {
        true
    } else if dec_lt(fi, fj) {
        false
    } else {
        i < j
    }
}

/// Cut shares whose bounds hold around the whole: their sum is within
/// 30000 units per row of 100, far less than a cent.
proof fn lemma_shares_add_up(s: int, t: int, n: int, p: int, p26: int)
    requires
        t > 0,
        0 <= n < 0x1_0000_0000_0000_0000,
        p == pow10(28),
        p26 == pow10(26),
        s >= 0,
        s * t <= 100 * t * p + 30000 * (t + n * t),
        100 * t * p <= (s + n * p26) * t + 30000 * (t + n * t),
    ensures
        s <= 100 * p + 30000 * (1 + n),
        100 * p <= s + n * p26 + 30000 * (1 + n),
        30000 * (1 + n) < p26,
        s <= 10000 * p,
{
    lemma_pow10_26();
    assert(s * t <= (100 * p + 30000 * (1 + n)) * t) by (nonlinear_arith)
        requires
            s * t <= 100 * t * p + 30000 * (t + n * t),
    ;
    assert(s <= 100 * p + 30000 * (1 + n)) by (nonlinear_arith)
        requires
            s * t <= (100 * p + 30000 * (1 + n)) * t,
            t > 0,
    ;
    assert(100 * p * t <= (s + n * p26 + 30000 * (1 + n)) * t) by (nonlinear_arith)
        requires
            100 * t * p <= (s + n * p26) * t + 30000 * (t + n * t),
    ;
    assert(100 * p <= s + n * p26 + 30000 * (1 + n)) by (nonlinear_arith)
        requires
            100 * p * t <= (s + n * p26 + 30000 * (1 + n)) * t,
            t > 0,
    ;
}

/// Rounds each row's share of `total` to a two-decimal percentage so that
/// the percentages add up to exactly 100.00: each share is cut to two
/// decimals, and the cents still missing go one each to the rows with the
/// largest remainders (ties to the larger cut share, then the earlier
/// row). Gives the percentage of each row in row order; nothing when
/// there are no rows or the total is not positive. Whenever the cents
/// missing are between none and one per row, the percentages add up to
/// exactly 100; in particular they do whenever no row is negative and the
/// rows add up to the total.
pub fn largest_remainder_percentages(values: &Vec<Dec>, total: Dec) -> (r: Vec<Dec>)
    requires
        lrm_in_range(values@, total),
    ensures
        total.units() <= 0 || values@.len() == 0 ==> r@.len() == 0,
        total.units() > 0 && values@.len() > 0 ==> r@.len() == values@.len() && forall|i: int|
            0 <= i < values@.len() ==> #[trigger] r@[i] == lrm_pct(values@, total, i),
        total.units() > 0 && values@.len() > 0 && abs_int(floor_sum(values@, total, values@.len() as int).units())
            <= 10000 * pow10(28) && 0 <= deficit_cents(values@, total) <= values@.len() ==> units_total(r@) == 100
            * pow10(28),
        total.units() > 0 && values@.len() > 0 && (forall|i: int| 0 <= i < values@.len() ==> (#[trigger] values@[i]).units()
            >= 0) && units_total(values@) == total.units() ==> units_total(r@) == 100 * pow10(28),
{
    let zero = Dec::zero();
    if !dec_lt(zero, total) || values.len() == 0 {
        return Vec::new();
    }
    let ghost vs = values@;
    let ghost p = pow10(28);
    let ghost p26 = pow10(26);
    let ghost mb = mantissa_bound();
    let n = values.len();
    proof {
        lemma_pow10_positive(28);
        lemma_pow10_low();
        lemma_pct_bound_sum_lower(vs, total, n as int);
    }
    let mut floors: Vec<Dec> = Vec::new();
    let mut rems: Vec<Dec> = Vec::new();
    let mut sum = zero;
    let mut i: usize = 0;
    let ghost nn = forall|k: int| 0 <= k < vs.len() ==> (#[trigger] vs[k]).units() >= 0;
    assert(vs.take(0) =~= Seq::<Dec>::empty());
    assert(units_total(vs.take(0)) == 0);
    assert(sum.units() == 0);
    while i < n
        invariant
            n == vs.len(),
            vs == values@,
            p == pow10(28),
            p >= 1,
            p == 100 * p26,
            p26 >= 1,
            p26 == pow10(26),
            mb == mantissa_bound(),
            total.units() > 0,
            lrm_in_range(vs, total),
            i <= n,
            floors@.len() == i && rems@.len() == i,
            forall|k: int| 0 <= k < i ==> #[trigger] rems@[k] == remainder_pct(vs[k], total),
            forall|k: int| 0 <= k < i ==> #[trigger] floors@[k] == floored_pct(vs[k], total),
            forall|k: int| 0 <= k < i ==> (#[trigger] rems@[k]).valid(),
            forall|k: int| 0 <= k < i ==> (#[trigger] floors@[k]).valid(),
            forall|k: int| 0 <= k < i ==> abs_int((#[trigger] floors@[k]).units()) <= pct_bound(vs[k], total),
            forall|k: int| 0 <= k < i ==> (#[trigger] floors@[k]).scale <= 2,
            sum == floor_sum(vs, total, i as int),
            sum.valid(),
            sum.scale <= 2,
            sum.units() == units_total(floors@),
            abs_int(sum.units()) <= pct_bound_sum(vs, total, i as int) + i * p,
            pct_bound_sum(vs, total, n as int) >= n * 102 * p,
            nn == (forall|k: int| 0 <= k < vs.len() ==> (#[trigger] vs[k]).units() >= 0),
            nn ==> sum.units() >= 0,
            nn ==> sum.units() * total.units() <= 100 * units_total(vs.take(i as int)) * p + 30000 * (units_total(
                vs.take(i as int),
            ) + i * total.units()),
            nn ==> 100 * units_total(vs.take(i as int)) * p <= (sum.units() + i * p26) * total.units() + 30000 * (
            units_total(vs.take(i as int)) + i * total.units()),
        decreases n - i,
    {
        proof {
            lemma_pct_bound_sum_grows(vs, total, i + 1, n as int);
            lemma_pct_bound_sum_lower(vs, total, i as int);
            assert(vs[i as int].valid());
            assert(pct_bound(vs[i as int], total) <= pct_bound_sum(vs, total, n as int));
        }
        let (f, rm) = row_figures(values[i], total);
        proof {
            let pbs = pct_bound_sum(vs, total, n as int);
            assert(abs_int(sum.units() + f.units()) <= pct_bound_sum(vs, total, i + 1) + i * p);
            assert(i * p <= n * p) by (nonlinear_arith)
                requires
                    i <= n,
                    p >= 1,
            ;
            assert(n * p <= pct_bound_sum(vs, total, n as int)) by (nonlinear_arith)
                requires
                    pct_bound_sum(vs, total, n as int) >= n * 102 * p,
                    p >= 1,
            ;
            assert((i + 1) * p == i * p + p) by (nonlinear_arith);
            assert(200 * pbs + 20000 * p <= max_units());
            assert(pct_bound_sum(vs, total, i + 1) <= pbs) by (nonlinear_arith)
                requires
                    pct_bound_sum(vs, total, i + 1) + (n - (i + 1)) * 102 * p <= pbs,
                    n >= i + 1,
                    p >= 1,
            ;
            let x = sum.units() + f.units();
            assert(abs_int(x) <= 2 * pbs);
            assert(max_units() == (mb - 1) * p);
            assert(abs_int(x) < mb * p26) by (nonlinear_arith)
                requires
                    abs_int(x) <= 2 * pbs,
                    200 * pbs + 20000 * p <= (mb - 1) * p,
                    p == 100 * p26,
                    p26 >= 1,
                    mb > 0,
            ;
            lemma_low_scale_fits(sum.units() + f.units(), if sum.scale < f.scale {
                f.scale
            } else {
                sum.scale
            });
        }
        let ghost before = floors@;
        let ghost s0 = sum.units();
        floors.push(f);
        rems.push(rm);
        sum = dec_add(sum, f);
        assert(floors@.drop_last() =~= before);
        proof {
            assert(vs.take(i + 1).drop_last() =~= vs.take(i as int));
            assert(vs.take(i + 1).last() == vs[i as int]);
            if nn {
                let t = total.units();
                let v0 = units_total(vs.take(i as int));
                let vu = vs[i as int].units();
                let fu = f.units();
                let ii = i as int;
                assert(vu >= 0);
                assert(sum.units() == s0 + fu);
                assert((s0 + fu) * t <= 100 * (v0 + vu) * p + 30000 * ((v0 + vu) + (ii + 1) * t)) by (nonlinear_arith)
                    requires
                        s0 * t <= 100 * v0 * p + 30000 * (v0 + ii * t),
                        fu * t <= 100 * vu * p + 30000 * (vu + t),
                ;
                assert(100 * (v0 + vu) * p <= ((s0 + fu) + (ii + 1) * p26) * t + 30000 * ((v0 + vu) + (ii + 1) * t))
                    by (nonlinear_arith)
                    requires
                        100 * v0 * p <= (s0 + ii * p26) * t + 30000 * (v0 + ii * t),
                        100 * vu * p < (fu + p26) * t + 30000 * (vu + t),
                ;
            }
        }
        i = i + 1;
    }
    let ghost law = nn && units_total(vs) == total.units();
    proof {
        assert(vs.take(n as int) =~= vs);
    }
    let hundred_fig = Dec { mantissa: 100, scale: 0 };
    proof {
        assert(hundred_fig.units() == 100 * p);
        assert(n * p <= pct_bound_sum(vs, total, n as int)) by (nonlinear_arith)
            requires
                pct_bound_sum(vs, total, n as int) >= n * 102 * p,
                p >= 1,
        ;
        let pbs = pct_bound_sum(vs, total, n as int);
        let x = hundred_fig.units() - sum.units();
        assert(abs_int(sum.units()) <= 2 * pbs);
        assert(max_units() == (mb - 1) * p);
        assert(200 * pbs + 20000 * p <= max_units());
        assert(abs_int(x) < mb * p26) by (nonlinear_arith)
            requires
                abs_int(x) <= 100 * p + 2 * pbs,
                200 * pbs + 20000 * p <= (mb - 1) * p,
                p == 100 * p26,
                p26 >= 1,
                mb > 0,
        ;
        lemma_low_scale_fits(hundred_fig.units() - sum.units(), sum.scale);
    }
    let short = dec_sub(hundred_fig, sum);
    proof {
        let pbs = pct_bound_sum(vs, total, n as int);
        let su = short.units();
        assert(abs_int(su) <= 102 * p + 2 * pbs);
        let mu = max_units();
        let asu = abs_int(su);
        assert(asu * (100 * p) <= mu * p) by (nonlinear_arith)
            requires
                asu <= 102 * p + 2 * pbs,
                200 * pbs + 20000 * p <= mu,
                p >= 1,
        ;
        assert(abs_int(su * (100 * p)) == asu * (100 * p)) by (nonlinear_arith)
            requires
                asu == abs_int(su),
                p >= 1,
        ;
    }
    let ghost exact = abs_int(sum.units()) <= 10000 * p;
    proof {
        if exact {
            let q = pow10((28 - short.scale) as nat);
            assert(q >= p26) by {
                if short.scale == 0 {
                    assert(q == pow10(28));
                } else if short.scale == 1 {
                    assert(q == pow10(27));
                } else {
                    assert(q == pow10(26));
                }
            }
            let m = short.mantissa as int;
            assert(short.units() == m * q);
            assert(abs_int(short.units()) <= 1010000 * p26);
            assert(abs_int(m) <= 1010000) by (nonlinear_arith)
                requires
                    abs_int(m * q) <= 1010000 * p26,
                    q >= p26,
                    p26 >= 1,
            ;
            assert(abs_int(m * 100) < mantissa_bound()) by (nonlinear_arith)
                requires
                    abs_int(m) <= 1010000,
            ;
        }
    }
    let cents_fig = dec_mul(short, hundred_fig);
    let whole = dec_round_dp(cents_fig, 0);
    proof {
        if exact {
            lemma_whole_cents(short, cents_fig, whole.mantissa as int, whole.scale);
        }
    }
    let deficit: i128 = if -0x8000_0000_0000_0000 <= whole.mantissa && whole.mantissa <= 0x7fff_ffff_ffff_ffff {
        whole.mantissa
    } else {
        0
    };
    proof {
        if exact {
            assert(deficit == whole.mantissa);
            assert(deficit * p26 == 100 * p - units_total(floors@));
        }
        if law {
            lemma_shares_add_up(sum.units(), total.units(), n as int, p, p26);
            assert(exact);
            let d = deficit as int;
            assert(0 <= d <= n) by (nonlinear_arith)
                requires
                    d * p26 == 100 * p - sum.units(),
                    sum.units() <= 100 * p + 30000 * (1 + n),
                    100 * p <= sum.units() + n * p26 + 30000 * (1 + n),
                    30000 * (1 + n) < p26,
                    n >= 0,
            ;
        }
    }
    let cent_fig = Dec { mantissa: 1, scale: 2 };
    assert(cent_fig.units() == p26);
    let mut out: Vec<Dec> = Vec::new();
    let mut k: usize = 0;
    assert(floors@.take(0).len() == 0);
    assert(units_total(floors@.take(0)) == 0);
    assert(count_below(vs, total, deficit as int, 0) == 0);
    assert(p26 * 0 == 0) by (nonlinear_arith);
    while k < n
        invariant
            n == vs.len(),
            vs == values@,
            p == pow10(28),
            p >= 1,
            p == 100 * p26,
            p26 >= 1,
            p26 == pow10(26),
            mb == mantissa_bound(),
            total.units() > 0,
            lrm_in_range(vs, total),
            floors@.len() == n && rems@.len() == n,
            forall|j: int| 0 <= j < n ==> #[trigger] rems@[j] == remainder_pct(vs[j], total),
            forall|j: int| 0 <= j < n ==> #[trigger] floors@[j] == floored_pct(vs[j], total),
            forall|j: int| 0 <= j < n ==> (#[trigger] rems@[j]).valid(),
            forall|j: int| 0 <= j < n ==> (#[trigger] floors@[j]).valid(),
            forall|j: int| 0 <= j < n ==> abs_int((#[trigger] floors@[j]).units()) <= pct_bound(vs[j], total),
            forall|j: int| 0 <= j < n ==> (#[trigger] floors@[j]).scale <= 2,
            pct_bound_sum(vs, total, n as int) >= n * 102 * p,
            deficit == deficit_cents(vs, total),
            cent_fig == (Dec { mantissa: 1, scale: 2 }),
            cent_fig.units() == p26,
            k <= n,
            out@.len() == k,
            forall|j: int| 0 <= j < k ==> #[trigger] out@[j] == lrm_pct(vs, total, j),
            units_total(out@) == units_total(floors@.take(k as int)) + p26 * count_below(vs, total, deficit as int, k as int),
        decreases n - k,
    {
        let mut ahead: usize = 0;
        let mut j: usize = 0;
        while j < n
            invariant
                n == vs.len(),
                floors@.len() == n && rems@.len() == n,
                forall|m: int| 0 <= m < n ==> #[trigger] rems@[m] == remainder_pct(vs[m], total),
                forall|m: int| 0 <= m < n ==> #[trigger] floors@[m] == floored_pct(vs[m], total),
                forall|m: int| 0 <= m < n ==> (#[trigger] rems@[m]).valid(),
                forall|m: int| 0 <= m < n ==> (#[trigger] floors@[m]).valid(),
                k < n,
                j <= n,
                ahead == rank_upto(vs, total, k as int, j as int),
                ahead <= j,
            decreases n - j,
        {
            if goes_before_exec(&rems, &floors, j, k, Ghost(vs), Ghost(total)) {
                ahead = ahead + 1;
            }
            j = j + 1;
        }
        let f = floors[k];
        let pct = if (ahead as i128) < deficit {
            proof {
                assert(f.valid());
                assert(abs_int(f.units()) <= pct_bound(vs[k as int], total));
                lemma_pct_bound_sum_lower(vs, total, k as int);
                lemma_pct_bound_sum_grows(vs, total, k + 1, n as int);
                let pbs = pct_bound_sum(vs, total, n as int);
                assert(200 * pbs + 20000 * p <= max_units());
                lemma_low_scale_fits(f.units() + cent_fig.units(), 2);
            }
            dec_add(f, cent_fig)
        } else {
            f
        };
        let ghost before = out@;
        let ghost c = count_below(vs, total, deficit as int, k as int);
        proof {
            assert(ahead == rank(vs, total, k as int));
            assert(p26 * (c + 1) == p26 * c + p26) by (nonlinear_arith);
            if (ahead as i128) < deficit {
                assert(pct.units() == f.units() + p26);
            } else {
                assert(pct.units() == f.units());
            }
        }
        out.push(pct);
        assert(out@.drop_last() =~= before);
        assert(floors@.take(k + 1).drop_last() =~= floors@.take(k as int));
        assert(floors@.take(k + 1).last() == f);
        k = k + 1;
    }
    proof {
        assert(floors@.take(n as int) =~= floors@);
        if exact && 0 <= deficit <= n {
            lemma_count_below_all(vs, total, deficit as int);
            assert(p26 * deficit == deficit * p26) by (nonlinear_arith);
        }
    }
    out
}

// ─── roll-up of holdings into a taxonomy ──────────────────────────────────

/// What the roll-up reads of a holding: its type, the asset it is in (if
/// any) and its value in the base currency.
pub struct AllocationHolding {
    pub holding_type: HoldingType,
    pub asset_id: Option<String>,
    pub market_value: Dec,
}

/// A category of a taxonomy; top-level categories have no parent.
pub struct Category {
    pub id: String,
    pub name: String,
    pub color: String,
    pub parent_id: Option<String>,
}

/// An asset's share in a category of a taxonomy, in basis points.
pub struct Assignment {
    pub taxonomy_id: String,
    pub category_id: String,
    pub weight: i32,
}

/// The assignments of one asset.
pub struct AssetAssignments {
    pub asset_id: String,
    pub assignments: Vec<Assignment>,
}

pub type CatView = (Seq<char>, Seq<char>, Seq<char>, Option<Seq<char>>);

pub type AssignView = (Seq<char>, Seq<char>, i32);

pub open spec fn cat_views(cats: Seq<Category>) -> Seq<CatView> {
    cats.map_values(|c: Category| (c.id@, c.name@, c.color@, opt_chars(c.parent_id)))
}

pub open spec fn assign_views(a: Seq<Assignment>) -> Seq<AssignView> {
    a.map_values(|x: Assignment| (x.taxonomy_id@, x.category_id@, x.weight))
}

pub open spec fn asset_assign_views(a: Seq<AssetAssignments>) -> Seq<(Seq<char>, Seq<AssignView>)> {
    a.map_values(|x: AssetAssignments| (x.asset_id@, assign_views(x.assignments@)))
}

/// The last category with id `id` (later entries replace earlier ones).
pub open spec fn last_category(cats: Seq<CatView>, id: Seq<char>) -> Option<CatView>
    decreases cats.len(),
{
    if cats.len() == 0 {
        None
    } else if cats.last().0 == id {
        Some(cats.last())
    } else {
        last_category(cats.drop_last(), id)
    }
}

pub open spec fn parent_of(cats: Seq<CatView>, id: Seq<char>) -> Option<Seq<char>> {
    match last_category(cats, id) {
        Some(c) => c.3,
        None => None,
    }
}

/// The top-level ancestor of `id`, following parents for at most `fuel`
/// steps (none when that is not enough).
pub open spec fn ancestor(cats: Seq<CatView>, id: Seq<char>, fuel: nat) -> Option<Seq<char>>
    decreases fuel,
{
    if fuel == 0 {
        None
    } else {
        match parent_of(cats, id) {
            Some(p) => ancestor(cats, p, (fuel - 1) as nat),
            None => Some(id),
        }
    }
}

/// Following parents from any category ends at a top-level one (no
/// category is its own ancestor).
pub open spec fn acyclic(cats: Seq<CatView>) -> bool {
    forall|i: int| 0 <= i < cats.len() ==> (#[trigger] ancestor(cats, cats[i].0, (cats.len() + 1) as nat)) is Some
}

/// The category a value is counted under: the top-level ancestor when
/// rolling up, the category itself otherwise.
pub open spec fn top_of(cats: Seq<CatView>, id: Seq<char>, rollup: bool) -> Seq<char> {
    if rollup {
        match ancestor(cats, id, (cats.len() + 1) as nat) {
            Some(t) => t,
            None => id,
        }
    } else {
        id
    }
}

proof fn lemma_last_category_found(cats: Seq<CatView>, id: Seq<char>)
    ensures
        last_category(cats, id) matches Some(c) ==> exists|i: int| 0 <= i < cats.len() && cats[i] == c && c.0 == id,
        last_category(cats, id) is None ==> forall|i: int| 0 <= i < cats.len() ==> cats[i].0 != id,
    decreases cats.len(),
{
    if cats.len() > 0 && cats.last().0 != id {
        lemma_last_category_found(cats.drop_last(), id);
        if last_category(cats, id) is Some {
            let i = choose|i: int| 0 <= i < cats.drop_last().len() && cats.drop_last()[i] == last_category(cats, id).unwrap() && last_category(cats, id).unwrap().0 == id;
            assert(cats[i] == cats.drop_last()[i]);
        } else {
            assert forall|i: int| 0 <= i < cats.len() implies cats[i].0 != id by {
                if i < cats.len() - 1 {
                    assert(cats[i] == cats.drop_last()[i]);
                }
            }
        }
    }
}

/// With no cycles among the parents, every id has a top-level ancestor.
proof fn lemma_ancestor_exists(cats: Seq<CatView>, id: Seq<char>)
    requires
        acyclic(cats),
    ensures
        ancestor(cats, id, (cats.len() + 1) as nat) is Some,
{
    lemma_last_category_found(cats, id);
    if last_category(cats, id) is Some {
        let i = choose|i: int| 0 <= i < cats.len() && cats[i] == last_category(cats, id).unwrap() && last_category(cats, id).unwrap().0 == id;
        assert(ancestor(cats, cats[i].0, (cats.len() + 1) as nat) is Some);
    }
}

pub(crate) fn last_category_index(cats: &Vec<Category>, id: &str) -> (r: Option<usize>)
    ensures
        match r {
            Some(i) => i < cats@.len() && last_category(cat_views(cats@), id@) == Some(cat_views(cats@)[i as int]),
            None => last_category(cat_views(cats@), id@) is None,
        },
{
    let ghost cv = cat_views(cats@);
    let mut i = cats.len();
    assert(cv.take(i as int) =~= cv);
    while i > 0
        invariant
            i <= cats@.len(),
            cv == cat_views(cats@),
            last_category(cv.take(i as int), id@) == last_category(cv, id@),
        decreases i,
    {
        let ghost before = cv.take(i as int);
        i = i - 1;
        assert(before.drop_last() =~= cv.take(i as int));
        if str_eq(cats[i].id.as_str(), id) {
            return Some(i);
        }
    }
    assert(cv.take(0) =~= Seq::<CatView>::empty());
    None
}

/// The category a value is counted under (see [`top_of`]).
pub(crate) fn top_level_ancestor(cats: &Vec<Category>, id: &str, rollup: bool) -> (r: String)
    requires
        rollup ==> acyclic(cat_views(cats@)),
    ensures
        r@ == top_of(cat_views(cats@), id@, rollup),
{
    if !rollup {
        return owned(id);
    }
    let ghost cv = cat_views(cats@);
    let ghost n = cats@.len();
    proof {
        lemma_ancestor_exists(cv, id@);
    }
    let mut cur = owned(id);
    let mut left: usize = cats.len();
    loop
        invariant
            cv == cat_views(cats@),
            n == cats@.len(),
            cv.len() == n,
            rollup,
            left <= n,
            ancestor(cv, cur@, (left + 1) as nat) == ancestor(cv, id@, (n + 1) as nat),
            ancestor(cv, id@, (n + 1) as nat) is Some,
        decreases left,
    {
        match last_category_index(cats, cur.as_str()) {
            Some(i) => {
                match &cats[i].parent_id {
                    Some(p) => {
                        assert(cv[i as int].3 == opt_chars(cats@[i as int].parent_id));
                        assert(parent_of(cv, cur@) == Some(p@));
                        if left == 0 {
                            assert(ancestor(cv, p@, 0) is None);
                            assert(false);
                        }
                        cur = p.clone();
                        left = left - 1;
                    },
                    None => {
                        assert(cv[i as int].3 == opt_chars(cats@[i as int].parent_id));
                        assert(parent_of(cv, cur@) is None);
                        assert(ancestor(cv, cur@, (left + 1) as nat) == Some(cur@));
                        return cur;
                    },
                }
            },
            None => {
                assert(parent_of(cv, cur@) is None);
                assert(ancestor(cv, cur@, (left + 1) as nat) == Some(cur@));
                return cur;
            },
        }
    }
}

pub open spec fn weight_fraction(w: i32) -> Dec {
    from_pair(decimal_div((w as i128, 0u32), (10000i128, 0u32)))
}

/// A value weighted by an assignment: `value * (weight / 10000)`.
pub open spec fn weighted_value(mv: Dec, w: i32) -> Dec {
    from_pair(decimal_mul(mv.pair(), weight_fraction(w).pair()))
}

/// A bound on what a weighted value adds to the running totals (times
/// 10^28), with room for rounding.
pub open spec fn assignment_cost(mv: Dec, w: i32) -> int {
    abs_int(mv.units()) * (abs_int(w as int) + 10000) / 10000 + 3 * pow10(28)
}

fn weighted(mv: Dec, w: i32) -> (r: Dec)
    requires
        mv.valid(),
        assignment_cost(mv, w) <= max_units(),
    ensures
        r == weighted_value(mv, w),
        r.valid(),
        abs_int(r.units()) + pow10(28) <= assignment_cost(mv, w),
{
    let ghost p = pow10(28);
    let wf = Dec { mantissa: w as i128, scale: 0 };
    let basis = Dec { mantissa: 10000, scale: 0 };
    proof {
        lemma_pow10_positive(28);
        assert(wf.units() == w * p);
        assert(basis.units() == 10000 * p);
        assert(abs_int(w as int) <= 0x8000_0000);
        assert(max_units() >= 0x1_0000_0000_0000 * p) by {
            assert(crate::decimal::mantissa_bound() - 1 >= 0x1_0000_0000_0000);
            assert((crate::decimal::mantissa_bound() - 1) * p >= 0x1_0000_0000_0000 * p) by (nonlinear_arith)
                requires
                    crate::decimal::mantissa_bound() - 1 >= 0x1_0000_0000_0000,
                    p >= 1,
            ;
        }
        let aw = abs_int(w as int);
        assert(abs_int(wf.units()) == aw * p) by (nonlinear_arith)
            requires
                wf.units() == w * p,
                aw == abs_int(w as int),
                p >= 1,
        ;
        assert(aw * p * p <= max_units() * (10000 * p)) by (nonlinear_arith)
            requires
                aw <= 0x8000_0000,
                max_units() >= 0x1_0000_0000_0000 * p,
                p >= 1,
        ;
        assert(abs_int(basis.units()) == 10000 * p);
    }
    let q = dec_div(wf, basis);
    proof {
        let qu = q.units();
        let aw = abs_int(w as int);
        assert(abs_int(qu * (10000 * p) - (w * p) * p) < p * (10000 * p));
        assert(abs_int(qu) * 10000 < aw * p + 10000 * p) by (nonlinear_arith)
            requires
                abs_int(qu * (10000 * p) - (w * p) * p) < p * (10000 * p),
                aw == abs_int(w as int),
                p >= 1,
        ;
        let am = abs_int(mv.units());
        let c = assignment_cost(mv, w);
        let fl = am * (aw + 10000) / 10000;
        assert(am * (aw + 10000) < (fl + 1) * 10000) by (nonlinear_arith)
            requires
                fl == am * (aw + 10000) / 10000,
                am >= 0,
                aw >= 0,
        ;
        assert(am * abs_int(qu) * 10000 <= am * (aw * p + 10000 * p)) by (nonlinear_arith)
            requires
                abs_int(qu) * 10000 < aw * p + 10000 * p,
                am >= 0,
        ;
        assert(abs_int(mv.units() * qu) == am * abs_int(qu)) by (nonlinear_arith)
            requires
                am == abs_int(mv.units()),
        ;
        assert(am * abs_int(qu) <= (fl + 1) * p) by (nonlinear_arith)
            requires
                am * abs_int(qu) * 10000 <= am * (aw * p + 10000 * p),
                am * (aw + 10000) < (fl + 1) * 10000,
                p >= 1,
                am >= 0,
        ;
        assert(fl + 3 * p <= max_units());
        assert(abs_int(mv.units() * qu) <= max_units() * p) by (nonlinear_arith)
            requires
                abs_int(mv.units() * qu) == am * abs_int(qu),
                am * abs_int(qu) <= (fl + 1) * p,
                fl + 3 * p <= max_units(),
                p >= 1,
        ;
    }
    let r = dec_mul(mv, q);
    proof {
        let qu = q.units();
        let am = abs_int(mv.units());
        let aw = abs_int(w as int);
        let fl = am * (aw + 10000) / 10000;
        assert(abs_int(r.units() * p - mv.units() * qu) < p * p);
        assert(abs_int(r.units()) * p < abs_int(mv.units() * qu) + p * p) by (nonlinear_arith)
            requires
                abs_int(r.units() * p - mv.units() * qu) < p * p,
        ;
        assert(abs_int(r.units()) < fl + 1 + p) by (nonlinear_arith)
            requires
                abs_int(r.units()) * p < abs_int(mv.units() * qu) + p * p,
                abs_int(mv.units() * qu) <= (fl + 1) * p,
                p >= 1,
        ;
    }
    r
}

/// A running total: a category, its value, and the category it is
/// counted under.
pub struct Tally {
    pub key: String,
    pub value: Dec,
    pub top: String,
}

pub type TallyView = (Seq<char>, Dec, Seq<char>);

pub open spec fn tally_views(v: Seq<Tally>) -> Seq<TallyView> {
    v.map_values(|t: Tally| (t.key@, t.value, t.top@))
}

/// The first position among the first `k` totals with key `key`, or -1.
pub open spec fn find_in(s: Seq<TallyView>, key: Seq<char>, k: int) -> int
    decreases k,
{
    if k <= 0 {
        -1
    } else {
        let r = find_in(s, key, k - 1);
        if r >= 0 {
            r
        } else if s[k - 1].0 == key {
            k - 1
        } else {
            -1
        }
    }
}

pub open spec fn zero_dec() -> Dec {
    Dec { mantissa: 0, scale: 0 }
}

pub open spec fn plus(a: Dec, b: Dec) -> Dec {
    from_pair(decimal_add(a.pair(), b.pair()))
}

/// Adds `amount` to the total of `key` (starting it at zero, counted
/// under `top`, when there is none yet); an existing total keeps the
/// category it is counted under.
pub open spec fn bump(s: Seq<TallyView>, key: Seq<char>, amount: Dec, top: Seq<char>) -> Seq<TallyView> {
    let i = find_in(s, key, s.len() as int);
    if i >= 0 {
        s.update(i, (key, plus(s[i].1, amount), s[i].2))
    } else {
        s.push((key, plus(zero_dec(), amount), top))
    }
}

/// The sum of the magnitudes of the totals.
pub open spec fn magnitude(s: Seq<TallyView>) -> int
    decreases s.len(),
{
    if s.len() == 0 {
        0
    } else {
        magnitude(s.drop_last()) + abs_int(s.last().1.units())
    }
}

proof fn lemma_find_in(s: Seq<TallyView>, key: Seq<char>, k: int)
    requires
        0 <= k <= s.len(),
    ensures
        find_in(s, key, k) >= 0 ==> find_in(s, key, k) < k && s[find_in(s, key, k)].0 == key,
        find_in(s, key, k) < 0 ==> forall|j: int| 0 <= j < k ==> s[j].0 != key,
        find_in(s, key, k) >= -1,
    decreases k,
{
    if k > 0 {
        lemma_find_in(s, key, k - 1);
    }
}

proof fn lemma_magnitude_update(s: Seq<TallyView>, i: int, x: TallyView)
    requires
        0 <= i < s.len(),
    ensures
        magnitude(s.update(i, x)) == magnitude(s) - abs_int(s[i].1.units()) + abs_int(x.1.units()),
    decreases s.len(),
{
    let u = s.update(i, x);
    if i == s.len() - 1 {
        assert(u.drop_last() =~= s.drop_last());
    } else {
        lemma_magnitude_update(s.drop_last(), i, x);
        assert(u.drop_last() =~= s.drop_last().update(i, x));
    }
}

proof fn lemma_magnitude_nonneg(s: Seq<TallyView>)
    ensures
        magnitude(s) >= 0,
    decreases s.len(),
{
    if s.len() > 0 {
        lemma_magnitude_nonneg(s.drop_last());
    }
}

proof fn lemma_magnitude_bounds(s: Seq<TallyView>, i: int)
    requires
        0 <= i < s.len(),
    ensures
        magnitude(s) >= abs_int(s[i].1.units()),
    decreases s.len(),
{
    lemma_magnitude_nonneg(s.drop_last());
    if i < s.len() - 1 {
        lemma_magnitude_bounds(s.drop_last(), i);
    }
}

fn find_tally(v: &Vec<Tally>, key: &str) -> (r: Option<usize>)
    ensures
        match r {
            Some(i) => find_in(tally_views(v@), key@, v@.len() as int) == i as int,
            None => find_in(tally_views(v@), key@, v@.len() as int) == -1,
        },
{
    let ghost tv = tally_views(v@);
    let mut i: usize = 0;
    while i < v.len()
        invariant
            tv == tally_views(v@),
            i <= v@.len(),
            find_in(tv, key@, i as int) == -1,
        decreases v.len() - i,
    {
        if str_eq(v[i].key.as_str(), key) {
            proof {
                assert(find_in(tv, key@, i + 1) == i);
                lemma_find_stays(tv, key@, i + 1, v@.len() as int);
            }
            return Some(i);
        }
        i = i + 1;
    }
    None
}

proof fn lemma_find_stays(s: Seq<TallyView>, key: Seq<char>, j: int, k: int)
    requires
        0 <= j <= k <= s.len(),
        find_in(s, key, j) >= 0,
    ensures
        find_in(s, key, k) == find_in(s, key, j),
    decreases k,
{
    if k > j {
        lemma_find_stays(s, key, j, k - 1);
    }
}

/// Adds `amount` to the total of `key`, as [`bump`] says.
fn bump_tally(v: &mut Vec<Tally>, key: &str, amount: Dec, top: &str)
    requires
        amount.valid(),
        forall|j: int| 0 <= j < old(v)@.len() ==> (#[trigger] old(v)@[j]).value.valid(),
        magnitude(tally_views(old(v)@)) + abs_int(amount.units()) <= max_units(),
    ensures
        tally_views(final(v)@) == bump(tally_views(old(v)@), key@, amount, top@),
        forall|j: int| 0 <= j < final(v)@.len() ==> (#[trigger] final(v)@[j]).value.valid(),
        magnitude(tally_views(final(v)@)) <= magnitude(tally_views(old(v)@)) + abs_int(amount.units()) + pow10(
            28,
        ),
        final(v)@.len() <= old(v)@.len() + 1,
{
    let ghost before = tally_views(v@);
    proof {
        lemma_pow10_positive(28);
        lemma_find_in(before, key@, before.len() as int);
    }
    match find_tally(v, key) {
        Some(i) => {
            proof {
                lemma_magnitude_bounds(before, i as int);
            }
            let cur = v[i].value;
            let next = dec_add(cur, amount);
            let t = v[i].top.clone();
            let k = owned(key);
            v.set(i, Tally { key: k, value: next, top: t });
            proof {
                lemma_magnitude_update(before, i as int, (key@, next, before[i as int].2));
                assert(tally_views(v@) =~= before.update(i as int, (key@, next, before[i as int].2)));
            }
        },
        None => {
            proof {
                lemma_magnitude_nonneg(before);
            }
            let zero = Dec::zero();
            let next = dec_add(zero, amount);
            v.push(Tally { key: owned(key), value: next, top: owned(top) });
            proof {
                assert(tally_views(v@).drop_last() =~= before);
            }
        },
    }
}

pub type HoldingView = (HoldingType, Option<Seq<char>>, Dec);

pub open spec fn holding_views(h: Seq<AllocationHolding>) -> Seq<HoldingView> {
    h.map_values(|x: AllocationHolding| (x.holding_type, opt_chars(x.asset_id), x.market_value))
}

pub type AssetAssignView = (Seq<char>, Seq<AssignView>);

/// The position of the first assignments of asset `aid` among the first
/// `k`, or -1.
pub open spec fn assignment_index(a: Seq<AssetAssignView>, aid: Seq<char>, k: int) -> int
    decreases k,
{
    if k <= 0 {
        -1
    } else {
        let r = assignment_index(a, aid, k - 1);
        if r >= 0 {
            r
        } else if a[k - 1].0 == aid {
            k - 1
        } else {
            -1
        }
    }
}

pub open spec fn assignments_of(a: Seq<AssetAssignView>, aid: Seq<char>) -> Option<Seq<AssignView>> {
    let i = assignment_index(a, aid, a.len() as int);
    if i >= 0 {
        Some(a[i].1)
    } else {
        None
    }
}

/// Whether any of the first `k` assignments belongs to taxonomy `tid`.
pub open spec fn has_in(a: Seq<AssignView>, tid: Seq<char>, k: int) -> bool
    decreases k,
{
    if k <= 0 {
        false
    } else {
        has_in(a, tid, k - 1) || a[k - 1].0 == tid
    }
}

pub open spec fn unknown_key() -> Seq<char> {
    "__UNKNOWN__"@
}

pub open spec fn cash_key() -> Seq<char> {
    "CASH_BANK_DEPOSITS"@
}

pub type Rollup = (Seq<TallyView>, Seq<TallyView>);

/// Spreads a value over the first `j` assignments that belong to taxonomy
/// `tid`: each category gets the weighted value, and so does the category
/// it is counted under.
pub open spec fn apply_assignments(
    st: Rollup,
    a: Seq<AssignView>,
    tid: Seq<char>,
    mv: Dec,
    cats: Seq<CatView>,
    rollup: bool,
    j: int,
) -> Rollup
    decreases j,
{
    if j <= 0 {
        st
    } else {
        let prev = apply_assignments(st, a, tid, mv, cats, rollup, j - 1);
        if a[j - 1].0 == tid {
            let cid = a[j - 1].1;
            let wv = weighted_value(mv, a[j - 1].2);
            let top = top_of(cats, cid, rollup);
            (bump(prev.0, top, wv, top), bump(prev.1, cid, wv, top))
        } else {
            prev
        }
    }
}

/// What one holding adds to the totals of taxonomy `tid` (the counted-under
/// totals first, the per-category totals second). Cash counts only in the
/// asset classes, under cash deposits; a holding with no asset is left
/// out; one without assignments in the taxonomy counts as unknown.
pub open spec fn roll_step(st: Rollup, h: HoldingView, tid: Seq<char>, cats: Seq<CatView>, assigns: Seq<AssetAssignView>, rollup: bool) -> Rollup {
    if h.0 == HoldingType::Cash && tid != "asset_classes"@ {
        st
    } else {
        match h.1 {
            None => st,
            Some(aid) => if h.0 == HoldingType::Cash {
                let top = top_of(cats, cash_key(), rollup);
                (bump(st.0, top, h.2, top), bump(st.1, cash_key(), h.2, top))
            } else {
                match assignments_of(assigns, aid) {
                    None => (bump(st.0, unknown_key(), h.2, unknown_key()), st.1),
                    Some(a) => if has_in(a, tid, a.len() as int) {
                        apply_assignments(st, a, tid, h.2, cats, rollup, a.len() as int)
                    } else {
                        (bump(st.0, unknown_key(), h.2, unknown_key()), st.1)
                    },
                }
            },
        }
    }
}

/// The totals after the first `k` holdings.
pub open spec fn rolled_up(hs: Seq<HoldingView>, tid: Seq<char>, cats: Seq<CatView>, assigns: Seq<AssetAssignView>, rollup: bool, k: int) -> Rollup
    decreases k,
{
    if k <= 0 {
        (Seq::empty(), Seq::empty())
    } else {
        roll_step(rolled_up(hs, tid, cats, assigns, rollup, k - 1), hs[k - 1], tid, cats, assigns, rollup)
    }
}

pub open spec fn apply_cost(a: Seq<AssignView>, tid: Seq<char>, mv: Dec, j: int) -> int
    decreases j,
{
    if j <= 0 {
        0
    } else {
        apply_cost(a, tid, mv, j - 1) + if a[j - 1].0 == tid {
            assignment_cost(mv, a[j - 1].2)
        } else {
            0
        }
    }
}

/// A bound on what a holding adds to the magnitudes of the totals.
pub open spec fn step_cost(h: HoldingView, tid: Seq<char>, assigns: Seq<AssetAssignView>) -> int {
    if h.0 == HoldingType::Cash && tid != "asset_classes"@ {
        0
    } else {
        match h.1 {
            None => 0,
            Some(aid) => if h.0 == HoldingType::Cash {
                abs_int(h.2.units()) + pow10(28)
            } else {
                match assignments_of(assigns, aid) {
                    None => abs_int(h.2.units()) + pow10(28),
                    Some(a) => if has_in(a, tid, a.len() as int) {
                        apply_cost(a, tid, h.2, a.len() as int)
                    } else {
                        abs_int(h.2.units()) + pow10(28)
                    },
                }
            },
        }
    }
}

pub open spec fn roll_cost(hs: Seq<HoldingView>, tid: Seq<char>, assigns: Seq<AssetAssignView>, k: int) -> int
    decreases k,
{
    if k <= 0 {
        0
    } else {
        roll_cost(hs, tid, assigns, k - 1) + step_cost(hs[k - 1], tid, assigns)
    }
}

proof fn lemma_assignment_index(a: Seq<AssetAssignView>, aid: Seq<char>, j: int, k: int)
    requires
        0 <= j <= k <= a.len(),
        assignment_index(a, aid, j) >= 0,
    ensures
        assignment_index(a, aid, k) == assignment_index(a, aid, j),
    decreases k,
{
    if k > j {
        lemma_assignment_index(a, aid, j, k - 1);
    }
}

proof fn lemma_assignment_index_range(a: Seq<AssetAssignView>, aid: Seq<char>, k: int)
    requires
        0 <= k <= a.len(),
    ensures
        -1 <= assignment_index(a, aid, k) < k,
    decreases k,
{
    if k > 0 {
        lemma_assignment_index_range(a, aid, k - 1);
    }
}

fn find_assignments(assigns: &Vec<AssetAssignments>, aid: &str) -> (r: Option<usize>)
    ensures
        match r {
            Some(i) => i < assigns@.len() && assignment_index(asset_assign_views(assigns@), aid@, assigns@.len() as int)
                == i,
            None => assignment_index(asset_assign_views(assigns@), aid@, assigns@.len() as int) == -1,
        },
{
    let ghost av = asset_assign_views(assigns@);
    let mut i: usize = 0;
    while i < assigns.len()
        invariant
            av == asset_assign_views(assigns@),
            i <= assigns@.len(),
            assignment_index(av, aid@, i as int) == -1,
        decreases assigns.len() - i,
    {
        if str_eq(assigns[i].asset_id.as_str(), aid) {
            proof {
                assert(assignment_index(av, aid@, i + 1) == i);
                lemma_assignment_index(av, aid@, i + 1, assigns@.len() as int);
            }
            return Some(i);
        }
        i = i + 1;
    }
    None
}

fn has_assignment_in(a: &Vec<Assignment>, tid: &str) -> (r: bool)
    ensures
        r == has_in(assign_views(a@), tid@, a@.len() as int),
{
    let ghost av = assign_views(a@);
    let mut found = false;
    let mut i: usize = 0;
    while i < a.len()
        invariant
            av == assign_views(a@),
            i <= a@.len(),
            found == has_in(av, tid@, i as int),
        decreases a.len() - i,
    {
        if str_eq(a[i].taxonomy_id.as_str(), tid) {
            found = true;
        }
        i = i + 1;
    }
    found
}

proof fn lemma_apply_cost_grows(a: Seq<AssignView>, tid: Seq<char>, mv: Dec, j: int, k: int)
    requires
        0 <= j <= k <= a.len(),
    ensures
        0 <= apply_cost(a, tid, mv, j) <= apply_cost(a, tid, mv, k),
    decreases k,
{
    lemma_pow10_positive(28);
    if j < k {
        lemma_apply_cost_grows(a, tid, mv, j, k - 1);
        let w = a[k - 1].2;
        assert(abs_int(mv.units()) * (abs_int(w as int) + 10000) / 10000 >= 0) by (nonlinear_arith)
            requires
                abs_int(mv.units()) >= 0,
                abs_int(w as int) >= 0,
        ;
    } else if k > 0 {
        lemma_apply_cost_grows(a, tid, mv, k - 1, k - 1);
        let w = a[k - 1].2;
        assert(abs_int(mv.units()) * (abs_int(w as int) + 10000) / 10000 >= 0) by (nonlinear_arith)
            requires
                abs_int(mv.units()) >= 0,
                abs_int(w as int) >= 0,
        ;
    }
}

/// Spreads the holding's value over its assignments in taxonomy `tid`.
fn spread(
    rolled: &mut Vec<Tally>,
    orig: &mut Vec<Tally>,
    a: &Vec<Assignment>,
    tid: &str,
    mv: Dec,
    cats: &Vec<Category>,
    rollup: bool,
    Ghost(budget): Ghost<int>,
)
    requires
        mv.valid(),
        rollup ==> acyclic(cat_views(cats@)),
        forall|j: int| 0 <= j < old(rolled)@.len() ==> (#[trigger] old(rolled)@[j]).value.valid(),
        forall|j: int| 0 <= j < old(orig)@.len() ==> (#[trigger] old(orig)@[j]).value.valid(),
        magnitude(tally_views(old(rolled)@)) + apply_cost(assign_views(a@), tid@, mv, a@.len() as int) <= budget,
        magnitude(tally_views(old(orig)@)) + apply_cost(assign_views(a@), tid@, mv, a@.len() as int) <= budget,
        budget <= max_units(),
    ensures
        (tally_views(final(rolled)@), tally_views(final(orig)@)) == apply_assignments(
            (tally_views(old(rolled)@), tally_views(old(orig)@)),
            assign_views(a@),
            tid@,
            mv,
            cat_views(cats@),
            rollup,
            a@.len() as int,
        ),
        forall|j: int| 0 <= j < final(rolled)@.len() ==> (#[trigger] final(rolled)@[j]).value.valid(),
        forall|j: int| 0 <= j < final(orig)@.len() ==> (#[trigger] final(orig)@[j]).value.valid(),
        magnitude(tally_views(final(rolled)@)) <= magnitude(tally_views(old(rolled)@)) + apply_cost(
            assign_views(a@),
            tid@,
            mv,
            a@.len() as int,
        ),
        magnitude(tally_views(final(orig)@)) <= magnitude(tally_views(old(orig)@)) + apply_cost(
            assign_views(a@),
            tid@,
            mv,
            a@.len() as int,
        ),
        final(rolled)@.len() * pow10(28) <= old(rolled)@.len() * pow10(28) + apply_cost(
            assign_views(a@),
            tid@,
            mv,
            a@.len() as int,
        ),
        final(orig)@.len() * pow10(28) <= old(orig)@.len() * pow10(28) + apply_cost(
            assign_views(a@),
            tid@,
            mv,
            a@.len() as int,
        ),
{
    let ghost av = assign_views(a@);
    let ghost cv = cat_views(cats@);
    let ghost st0 = (tally_views(rolled@), tally_views(orig@));
    let ghost r0 = magnitude(tally_views(rolled@));
    let ghost o0 = magnitude(tally_views(orig@));
    let ghost rl0 = rolled@.len();
    let ghost ol0 = orig@.len();
    let ghost p = pow10(28);
    let n = a.len();
    proof {
        lemma_pow10_positive(28);
        lemma_apply_cost_grows(av, tid@, mv, 0, n as int);
        lemma_magnitude_nonneg(tally_views(rolled@));
    }
    let mut k: usize = 0;
    while k < n
        invariant
            n == a@.len(),
            av == assign_views(a@),
            cv == cat_views(cats@),
            p == pow10(28),
            p >= 1,
            mv.valid(),
            rollup ==> acyclic(cv),
            k <= n,
            (tally_views(rolled@), tally_views(orig@)) == apply_assignments(st0, av, tid@, mv, cv, rollup, k as int),
            forall|j: int| 0 <= j < rolled@.len() ==> (#[trigger] rolled@[j]).value.valid(),
            forall|j: int| 0 <= j < orig@.len() ==> (#[trigger] orig@[j]).value.valid(),
            magnitude(tally_views(rolled@)) <= r0 + apply_cost(av, tid@, mv, k as int),
            magnitude(tally_views(orig@)) <= o0 + apply_cost(av, tid@, mv, k as int),
            rolled@.len() * p <= rl0 * p + apply_cost(av, tid@, mv, k as int),
            orig@.len() * p <= ol0 * p + apply_cost(av, tid@, mv, k as int),
            r0 + apply_cost(av, tid@, mv, n as int) <= budget,
            o0 + apply_cost(av, tid@, mv, n as int) <= budget,
            r0 >= 0,
            budget <= max_units(),
        decreases n - k,
    {
        proof {
            lemma_apply_cost_grows(av, tid@, mv, k + 1, n as int);
        }
        if str_eq(a[k].taxonomy_id.as_str(), tid) {
            let w = a[k].weight;
            let cid = a[k].category_id.as_str();
            proof {
                assert(av[k as int] == (a@[k as int].taxonomy_id@, a@[k as int].category_id@, w));
                assert(apply_cost(av, tid@, mv, k + 1) == apply_cost(av, tid@, mv, k as int) + assignment_cost(mv, w));
                lemma_apply_cost_grows(av, tid@, mv, 0, k as int);
            }
            let wv = weighted(mv, w);
            let top = top_level_ancestor(cats, cid, rollup);
            let ghost lr = rolled@.len();
            let ghost lo = orig@.len();
            bump_tally(rolled, top.as_str(), wv, top.as_str());
            bump_tally(orig, cid, wv, top.as_str());
            proof {
                assert(rolled@.len() * p <= lr * p + p) by (nonlinear_arith)
                    requires
                        rolled@.len() <= lr + 1,
                        p >= 1,
                ;
                assert(orig@.len() * p <= lo * p + p) by (nonlinear_arith)
                    requires
                        orig@.len() <= lo + 1,
                        p >= 1,
                ;
            }
        }
        k = k + 1;
    }
}

proof fn lemma_step_cost_nonneg(h: HoldingView, tid: Seq<char>, assigns: Seq<AssetAssignView>)
    ensures
        step_cost(h, tid, assigns) >= 0,
{
    lemma_pow10_positive(28);
    if let Some(aid) = h.1 {
        if let Some(a) = assignments_of(assigns, aid) {
            lemma_apply_cost_grows(a, tid, h.2, 0, a.len() as int);
        }
    }
}

proof fn lemma_roll_cost_grows(hs: Seq<HoldingView>, tid: Seq<char>, assigns: Seq<AssetAssignView>, j: int, k: int)
    requires
        0 <= j <= k <= hs.len(),
    ensures
        0 <= roll_cost(hs, tid, assigns, j) <= roll_cost(hs, tid, assigns, k),
    decreases k,
{
    if j < k {
        lemma_roll_cost_grows(hs, tid, assigns, j, k - 1);
        lemma_step_cost_nonneg(hs[k - 1], tid, assigns);
    } else if k > 0 {
        lemma_roll_cost_grows(hs, tid, assigns, k - 1, k - 1);
        lemma_step_cost_nonneg(hs[k - 1], tid, assigns);
    }
}

/// The holdings' totals in taxonomy `taxonomy_id`, as [`rolled_up`]
/// says: the counted-under totals and the per-category totals.
fn roll_up(
    holdings: &Vec<AllocationHolding>,
    taxonomy_id: &str,
    cats: &Vec<Category>,
    assigns: &Vec<AssetAssignments>,
    rollup: bool,
) -> (r: (Vec<Tally>, Vec<Tally>))
    requires
        rollup ==> acyclic(cat_views(cats@)),
        forall|i: int| 0 <= i < holdings@.len() ==> (#[trigger] holdings@[i]).market_value.valid(),
        roll_cost(holding_views(holdings@), taxonomy_id@, asset_assign_views(assigns@), holdings@.len() as int)
            <= max_units(),
    ensures
        (tally_views(r.0@), tally_views(r.1@)) == rolled_up(
            holding_views(holdings@),
            taxonomy_id@,
            cat_views(cats@),
            asset_assign_views(assigns@),
            rollup,
            holdings@.len() as int,
        ),
        forall|j: int| 0 <= j < r.0@.len() ==> (#[trigger] r.0@[j]).value.valid(),
        forall|j: int| 0 <= j < r.1@.len() ==> (#[trigger] r.1@[j]).value.valid(),
        magnitude(tally_views(r.0@)) <= roll_cost(
            holding_views(holdings@),
            taxonomy_id@,
            asset_assign_views(assigns@),
            holdings@.len() as int,
        ),
        magnitude(tally_views(r.1@)) <= roll_cost(
            holding_views(holdings@),
            taxonomy_id@,
            asset_assign_views(assigns@),
            holdings@.len() as int,
        ),
        r.0@.len() * pow10(28) <= roll_cost(
            holding_views(holdings@),
            taxonomy_id@,
            asset_assign_views(assigns@),
            holdings@.len() as int,
        ),
        r.1@.len() * pow10(28) <= roll_cost(
            holding_views(holdings@),
            taxonomy_id@,
            asset_assign_views(assigns@),
            holdings@.len() as int,
        ),
{
    let ghost hv = holding_views(holdings@);
    let ghost cv = cat_views(cats@);
    let ghost av = asset_assign_views(assigns@);
    let ghost tid = taxonomy_id@;
    let ghost p = pow10(28);
    let n = holdings.len();
    proof {
        lemma_pow10_positive(28);
    }
    let mut rolled: Vec<Tally> = Vec::new();
    let mut orig: Vec<Tally> = Vec::new();
    let is_asset_classes = str_eq(taxonomy_id, "asset_classes");
    assert(0 * p == 0);
    let mut i: usize = 0;
    while i < n
        invariant
            n == holdings@.len(),
            hv == holding_views(holdings@),
            cv == cat_views(cats@),
            av == asset_assign_views(assigns@),
            tid == taxonomy_id@,
            is_asset_classes == (tid == "asset_classes"@),
            p == pow10(28),
            p >= 1,
            rollup ==> acyclic(cv),
            forall|j: int| 0 <= j < holdings@.len() ==> (#[trigger] holdings@[j]).market_value.valid(),
            roll_cost(hv, tid, av, n as int) <= max_units(),
            i <= n,
            (tally_views(rolled@), tally_views(orig@)) == rolled_up(hv, tid, cv, av, rollup, i as int),
            forall|j: int| 0 <= j < rolled@.len() ==> (#[trigger] rolled@[j]).value.valid(),
            forall|j: int| 0 <= j < orig@.len() ==> (#[trigger] orig@[j]).value.valid(),
            magnitude(tally_views(rolled@)) <= roll_cost(hv, tid, av, i as int),
            magnitude(tally_views(orig@)) <= roll_cost(hv, tid, av, i as int),
            rolled@.len() * p <= roll_cost(hv, tid, av, i as int),
            orig@.len() * p <= roll_cost(hv, tid, av, i as int),
        decreases n - i,
    {
        let h = &holdings[i];
        let mv = h.market_value;
        let ghost c0 = roll_cost(hv, tid, av, i as int);
        proof {
            lemma_roll_cost_grows(hv, tid, av, i + 1, n as int);
            lemma_roll_cost_grows(hv, tid, av, 0, i as int);
            assert(hv[i as int] == (h.holding_type, opt_chars(h.asset_id), mv));
            assert(roll_cost(hv, tid, av, i + 1) == c0 + step_cost(hv[i as int], tid, av));
            assert(mv.valid());
        }
        let ghost lr = rolled@.len();
        let ghost lo = orig@.len();
        let is_cash = match h.holding_type {
            HoldingType::Cash => true,
            _ => false,
        };
        if is_cash && !is_asset_classes {
        } else {
            match &h.asset_id {
                None => {},
                Some(aid) => {
                    if is_cash {
                        let top = top_level_ancestor(cats, "CASH_BANK_DEPOSITS", rollup);
                        bump_tally(&mut rolled, top.as_str(), mv, top.as_str());
                        bump_tally(&mut orig, "CASH_BANK_DEPOSITS", mv, top.as_str());
                    } else {
                        match find_assignments(assigns, aid.as_str()) {
                            None => {
                                bump_tally(&mut rolled, "__UNKNOWN__", mv, "__UNKNOWN__");
                            },
                            Some(k) => {
                                let list = &assigns[k].assignments;
                                proof {
                                    lemma_assignment_index_range(av, aid@, av.len() as int);
                                    assert(assignments_of(av, aid@) == Some(assign_views(list@)));
                                }
                                if has_assignment_in(list, taxonomy_id) {
                                    spread(&mut rolled, &mut orig, list, taxonomy_id, mv, cats, rollup, Ghost(c0 + step_cost(hv[i as int], tid, av)));
                                } else {
                                    bump_tally(&mut rolled, "__UNKNOWN__", mv, "__UNKNOWN__");
                                }
                            },
                        }
                    }
                },
            }
        }
        proof {
            if rolled@.len() <= lr + 1 {
                assert(rolled@.len() * p <= lr * p + p) by (nonlinear_arith)
                    requires
                        rolled@.len() <= lr + 1,
                        p >= 1,
                ;
            }
            if orig@.len() <= lo + 1 {
                assert(orig@.len() * p <= lo * p + p) by (nonlinear_arith)
                    requires
                        orig@.len() <= lo + 1,
                        p >= 1,
                ;
            }
            if orig@.len() == lo {
                assert(orig@.len() * p == lo * p);
            }
            if rolled@.len() == lr {
                assert(rolled@.len() * p == lr * p);
            }
        }
        i = i + 1;
    }
    (rolled, orig)
}

/// One category's share: its id, name, colour, value and percentage.
pub struct CategoryShare {
    pub category_id: String,
    pub category_name: String,
    pub color: String,
    pub value: Dec,
    pub percentage: Dec,
}

/// A category of the breakdown with the categories rolled up into it.
pub struct CategoryAllocation {
    pub category_id: String,
    pub category_name: String,
    pub color: String,
    pub value: Dec,
    pub percentage: Dec,
    pub children: Vec<CategoryShare>,
}

/// The breakdown of a portfolio by one taxonomy.
pub struct TaxonomyAllocation {
    pub taxonomy_id: String,
    pub taxonomy_name: String,
    pub color: String,
    pub categories: Vec<CategoryAllocation>,
}

pub type ShareView = (Seq<char>, Seq<char>, Seq<char>, Dec, Dec);

pub type AllocView = (ShareView, Seq<ShareView>);

pub open spec fn share_views(v: Seq<CategoryShare>) -> Seq<ShareView> {
    v.map_values(|c: CategoryShare| (c.category_id@, c.category_name@, c.color@, c.value, c.percentage))
}

pub open spec fn alloc_views(v: Seq<CategoryAllocation>) -> Seq<AllocView> {
    v.map_values(
        |c: CategoryAllocation| ((c.category_id@, c.category_name@, c.color@, c.value, c.percentage), share_views(c.children@)),
    )
}

/// The totals among the first `k` that are positive, in order.
pub open spec fn positive_rows(s: Seq<TallyView>, k: int) -> Seq<TallyView>
    decreases k,
{
    if k <= 0 {
        Seq::empty()
    } else {
        let r = positive_rows(s, k - 1);
        if s[k - 1].1.units() > 0 {
            r.push(s[k - 1])
        } else {
            r
        }
    }
}

/// The positive per-category totals among the first `k` of categories
/// that were rolled up into another.
pub open spec fn child_rows(s: Seq<TallyView>, k: int) -> Seq<TallyView>
    decreases k,
{
    if k <= 0 {
        Seq::empty()
    } else {
        let r = child_rows(s, k - 1);
        if s[k - 1].0 != s[k - 1].2 && s[k - 1].1.units() > 0 {
            r.push(s[k - 1])
        } else {
            r
        }
    }
}

pub open spec fn values_of(rows: Seq<TallyView>) -> Seq<Dec> {
    rows.map_values(|r: TallyView| r.1)
}

/// The percentage of row `i`: its largest-remainder percentage of `total`,
/// or zero when the total is not positive.
pub open spec fn pct_at(values: Seq<Dec>, total: Dec, i: int) -> Dec {
    if total.units() > 0 {
        lrm_pct(values, total, i)
    } else {
        zero_dec()
    }
}

/// A category's name and colour, or its id and grey when it is unknown.
pub open spec fn name_color(cats: Seq<CatView>, key: Seq<char>) -> (Seq<char>, Seq<char>) {
    match last_category(cats, key) {
        Some(c) => (c.1, c.2),
        None => (key, "#808080"@),
    }
}

/// Larger values first.
pub open spec fn share_before() -> spec_fn(ShareView, ShareView) -> bool {
    |a: ShareView, b: ShareView| a.3.units() > b.3.units()
}

pub open spec fn alloc_before() -> spec_fn(AllocView, AllocView) -> bool {
    |a: AllocView, b: AllocView| a.0.3.units() > b.0.3.units()
}

/// The shares of the rolled-up categories, each with the category it is
/// counted under.
pub open spec fn child_share(cats: Seq<CatView>, rows: Seq<TallyView>, total: Dec, j: int) -> ShareView {
    let nc = name_color(cats, rows[j].0);
    (rows[j].0, nc.0, nc.1, rows[j].1, pct_at(values_of(rows), total, j))
}

/// The shares among the first `k` child rows that are counted under `top`.
pub open spec fn children_under(cats: Seq<CatView>, rows: Seq<TallyView>, total: Dec, top: Seq<char>, k: int) -> Seq<ShareView>
    decreases k,
{
    if k <= 0 {
        Seq::empty()
    } else {
        let r = children_under(cats, rows, total, top, k - 1);
        if rows[k - 1].2 == top {
            r.push(child_share(cats, rows, total, k - 1))
        } else {
            r
        }
    }
}

/// A top-level category: unknown holdings under "Unknown", a known
/// category under its name and colour, with its rolled-up categories
/// (largest first) when rolling up.
pub open spec fn top_alloc(cats: Seq<CatView>, tops: Seq<TallyView>, kids: Seq<TallyView>, total: Dec, rollup: bool, i: int) -> AllocView {
    let key = tops[i].0;
    let nc = if key == unknown_key() {
        ("Unknown"@, "#878580"@)
    } else {
        name_color(cats, key)
    };
    (
        (key, nc.0, nc.1, tops[i].1, pct_at(values_of(tops), total, i)),
        if rollup {
            crate::sorting::isort(children_under(cats, kids, total, key, kids.len() as int), share_before())
        } else {
            Seq::empty()
        },
    )
}

pub open spec fn top_allocs(cats: Seq<CatView>, tops: Seq<TallyView>, kids: Seq<TallyView>, total: Dec, rollup: bool, k: int) -> Seq<AllocView>
    decreases k,
{
    if k <= 0 {
        Seq::empty()
    } else {
        top_allocs(cats, tops, kids, total, rollup, k - 1).push(top_alloc(cats, tops, kids, total, rollup, k - 1))
    }
}

/// The breakdown built from the totals: the positive counted-under
/// totals, largest first.
pub open spec fn breakdown(cats: Seq<CatView>, st: Rollup, total: Dec, rollup: bool) -> Seq<AllocView> {
    let tops = positive_rows(st.0, st.0.len() as int);
    let kids = child_rows(st.1, st.1.len() as int);
    crate::sorting::isort(top_allocs(cats, tops, kids, total, rollup, tops.len() as int), alloc_before())
}

proof fn lemma_pbs_prefix(a: Seq<Dec>, b: Seq<Dec>, total: Dec, k: int)
    requires
        0 <= k <= a.len(),
        k <= b.len(),
        forall|i: int| 0 <= i < k ==> a[i] == b[i],
    ensures
        pct_bound_sum(a, total, k) == pct_bound_sum(b, total, k),
    decreases k,
{
    if k > 0 {
        lemma_pbs_prefix(a, b, total, k - 1);
    }
}

proof fn lemma_floor_add(a: int, b: int, t: int)
    requires
        a >= 0,
        b >= 0,
        t > 0,
    ensures
        a / t + b / t <= (a + b) / t,
{
    assert(a / t + b / t <= (a + b) / t) by (nonlinear_arith)
        requires
            a >= 0,
            b >= 0,
            t > 0,
    ;
}

proof fn lemma_floor_mono(a: int, b: int, t: int)
    requires
        0 <= a <= b,
        t > 0,
    ensures
        a / t <= b / t,
{
    assert(a / t <= b / t) by (nonlinear_arith)
        requires
            0 <= a <= b,
            t > 0,
    ;
}

/// The percentages of the positive totals stay within the bound that the
/// magnitudes of all the totals give.
proof fn lemma_positive_rows_bound(s: Seq<TallyView>, total: Dec, k: int)
    requires
        0 <= k <= s.len(),
        total.units() > 0,
        forall|j: int| 0 <= j < s.len() ==> (#[trigger] s[j]).1.valid(),
    ensures
        pct_bound_sum(values_of(positive_rows(s, k)), total, positive_rows(s, k).len() as int) <= 100 * pow10(28)
            * magnitude(s.take(k)) / total.units() + 102 * pow10(28) * k,
        forall|i: int| 0 <= i < positive_rows(s, k).len() ==> (#[trigger] positive_rows(s, k)[i]).1.valid(),
        positive_rows(s, k).len() <= k,
    decreases k,
{
    let p = pow10(28);
    let t = total.units();
    lemma_pow10_positive(28);
    if k > 0 {
        lemma_positive_rows_bound(s, total, k - 1);
        let prev = positive_rows(s, k - 1);
        let cur = positive_rows(s, k);
        assert(s.take(k).drop_last() =~= s.take(k - 1));
        let m0 = magnitude(s.take(k - 1));
        let v = s[k - 1].1;
        assert(magnitude(s.take(k)) == m0 + abs_int(v.units()));
        lemma_magnitude_nonneg(s.take(k - 1));
        assert(102 * p * k == 102 * p * (k - 1) + 102 * p) by (nonlinear_arith);
        assert(100 * p * (m0 + abs_int(v.units())) == 100 * p * m0 + 100 * abs_int(v.units()) * p) by (nonlinear_arith);
        assert(100 * p * m0 >= 0) by (nonlinear_arith)
            requires
                m0 >= 0,
                p >= 1,
        ;
        assert(100 * abs_int(v.units()) * p >= 0) by (nonlinear_arith)
            requires
                p >= 1,
        ;
        if v.units() > 0 {
            assert(cur == prev.push(s[k - 1]));
            lemma_pbs_prefix(values_of(cur), values_of(prev), total, prev.len() as int);
            assert(values_of(cur)[prev.len() as int] == v);
            lemma_floor_add(100 * p * m0, 100 * abs_int(v.units()) * p, t);
        } else {
            assert(cur == prev);
            lemma_floor_mono(100 * p * m0, 100 * p * (m0 + abs_int(v.units())), t);
        }
    } else {
        assert(magnitude(s.take(0)) == 0);
        assert(100 * p * 0 / t == 0) by (nonlinear_arith)
            requires
                t > 0,
        ;
        assert(102 * p * 0 == 0);
    }
}

/// The same for the totals of rolled-up categories.
proof fn lemma_child_rows_bound(s: Seq<TallyView>, total: Dec, k: int)
    requires
        0 <= k <= s.len(),
        total.units() > 0,
        forall|j: int| 0 <= j < s.len() ==> (#[trigger] s[j]).1.valid(),
    ensures
        pct_bound_sum(values_of(child_rows(s, k)), total, child_rows(s, k).len() as int) <= 100 * pow10(28)
            * magnitude(s.take(k)) / total.units() + 102 * pow10(28) * k,
        forall|i: int| 0 <= i < child_rows(s, k).len() ==> (#[trigger] child_rows(s, k)[i]).1.valid(),
        child_rows(s, k).len() <= k,
    decreases k,
{
    let p = pow10(28);
    let t = total.units();
    lemma_pow10_positive(28);
    if k > 0 {
        lemma_child_rows_bound(s, total, k - 1);
        let prev = child_rows(s, k - 1);
        let cur = child_rows(s, k);
        assert(s.take(k).drop_last() =~= s.take(k - 1));
        let m0 = magnitude(s.take(k - 1));
        let v = s[k - 1].1;
        assert(magnitude(s.take(k)) == m0 + abs_int(v.units()));
        lemma_magnitude_nonneg(s.take(k - 1));
        assert(102 * p * k == 102 * p * (k - 1) + 102 * p) by (nonlinear_arith);
        assert(100 * p * (m0 + abs_int(v.units())) == 100 * p * m0 + 100 * abs_int(v.units()) * p) by (nonlinear_arith);
        assert(100 * p * m0 >= 0) by (nonlinear_arith)
            requires
                m0 >= 0,
                p >= 1,
        ;
        assert(100 * abs_int(v.units()) * p >= 0) by (nonlinear_arith)
            requires
                p >= 1,
        ;
        if s[k - 1].0 != s[k - 1].2 && v.units() > 0 {
            assert(cur == prev.push(s[k - 1]));
            lemma_pbs_prefix(values_of(cur), values_of(prev), total, prev.len() as int);
            assert(values_of(cur)[prev.len() as int] == v);
            lemma_floor_add(100 * p * m0, 100 * abs_int(v.units()) * p, t);
        } else {
            assert(cur == prev);
            lemma_floor_mono(100 * p * m0, 100 * p * (m0 + abs_int(v.units())), t);
        }
    } else {
        assert(magnitude(s.take(0)) == 0);
        assert(100 * p * 0 / t == 0) by (nonlinear_arith)
            requires
                t > 0,
        ;
        assert(102 * p * 0 == 0);
    }
}

fn positive_tallies(v: &Vec<Tally>) -> (r: Vec<Tally>)
    ensures
        tally_views(r@) == positive_rows(tally_views(v@), v@.len() as int),
{
    let ghost tv = tally_views(v@);
    let mut out: Vec<Tally> = Vec::new();
    let mut i: usize = 0;
    while i < v.len()
        invariant
            tv == tally_views(v@),
            i <= v@.len(),
            tally_views(out@) == positive_rows(tv, i as int),
        decreases v.len() - i,
    {
        let t = &v[i];
        if is_positive(t.value) {
            let ghost before = tally_views(out@);
            out.push(Tally { key: t.key.clone(), value: t.value, top: t.top.clone() });
            assert(tally_views(out@) =~= before.push(tv[i as int]));
        }
        i = i + 1;
    }
    out
}

fn child_tallies(v: &Vec<Tally>) -> (r: Vec<Tally>)
    ensures
        tally_views(r@) == child_rows(tally_views(v@), v@.len() as int),
{
    let ghost tv = tally_views(v@);
    let mut out: Vec<Tally> = Vec::new();
    let mut i: usize = 0;
    while i < v.len()
        invariant
            tv == tally_views(v@),
            i <= v@.len(),
            tally_views(out@) == child_rows(tv, i as int),
        decreases v.len() - i,
    {
        let t = &v[i];
        if !str_eq(t.key.as_str(), t.top.as_str()) && is_positive(t.value) {
            let ghost before = tally_views(out@);
            out.push(Tally { key: t.key.clone(), value: t.value, top: t.top.clone() });
            assert(tally_views(out@) =~= before.push(tv[i as int]));
        }
        i = i + 1;
    }
    out
}

/// Whether a figure is positive: the sign of the mantissa is the sign of
/// the value.
fn is_positive(d: Dec) -> (r: bool)
    ensures
        r == (d.units() > 0),
{
    proof {
        lemma_pow10_positive((28 - d.scale) as nat);
        assert(d.mantissa > 0 <==> d.units() > 0) by (nonlinear_arith)
            requires
                pow10((28 - d.scale) as nat) >= 1,
                d.units() == d.mantissa * pow10((28 - d.scale) as nat),
        ;
    }
    d.mantissa > 0
}

fn tally_values(rows: &Vec<Tally>) -> (r: Vec<Dec>)
    ensures
        r@ == values_of(tally_views(rows@)),
{
    let mut out: Vec<Dec> = Vec::new();
    let mut i: usize = 0;
    while i < rows.len()
        invariant
            i <= rows@.len(),
            out@ == values_of(tally_views(rows@)).take(i as int),
        decreases rows.len() - i,
    {
        out.push(rows[i].value);
        assert(out@ =~= values_of(tally_views(rows@)).take(i + 1));
        i = i + 1;
    }
    assert(values_of(tally_views(rows@)).take(rows@.len() as int) =~= values_of(tally_views(rows@)));
    out
}

fn name_and_color(cats: &Vec<Category>, key: &str) -> (r: (String, String))
    ensures
        (r.0@, r.1@) == name_color(cat_views(cats@), key@),
{
    match last_category_index(cats, key) {
        Some(i) => (cats[i].name.clone(), cats[i].color.clone()),
        None => (owned(key), owned("#808080")),
    }
}

/// The percentages of the rows: largest-remainder percentages of a
/// positive total, zeros otherwise.
fn row_percentages(values: &Vec<Dec>, total: Dec) -> (r: Vec<Dec>)
    requires
        lrm_in_range(values@, total),
    ensures
        r@.len() == values@.len(),
        forall|i: int| 0 <= i < values@.len() ==> #[trigger] r@[i] == pct_at(values@, total, i),
{
    let zero = Dec::zero();
    if dec_lt(zero, total) {
        let r = largest_remainder_percentages(values, total);
        r
    } else {
        let mut out: Vec<Dec> = Vec::new();
        let mut i: usize = 0;
        while i < values.len()
            invariant
                i <= values@.len(),
                out@.len() == i,
                zero == zero_dec(),
                total.units() <= 0,
                forall|j: int| 0 <= j < i ==> #[trigger] out@[j] == pct_at(values@, total, j),
            decreases values.len() - i,
        {
            out.push(zero);
            i = i + 1;
        }
        out
    }
}

/// The shares of the rolled-up categories counted under `top`, largest
/// first.
fn children_for(cats: &Vec<Category>, kids: &Vec<Tally>, kid_pcts: &Vec<Dec>, total: Dec, top: &str) -> (r: Vec<
    CategoryShare,
>)
    requires
        kid_pcts@.len() == kids@.len(),
        forall|j: int|
            0 <= j < kids@.len() ==> #[trigger] kid_pcts@[j] == pct_at(values_of(tally_views(kids@)), total, j),
        forall|j: int| 0 <= j < kids@.len() ==> (#[trigger] kids@[j]).value.valid(),
    ensures
        share_views(r@) == crate::sorting::isort(
            children_under(cat_views(cats@), tally_views(kids@), total, top@, kids@.len() as int),
            share_before(),
        ),
{
    let ghost cv = cat_views(cats@);
    let ghost kv = tally_views(kids@);
    let mut out: Vec<CategoryShare> = Vec::new();
    let mut i: usize = 0;
    while i < kids.len()
        invariant
            cv == cat_views(cats@),
            kv == tally_views(kids@),
            i <= kids@.len(),
            kid_pcts@.len() == kids@.len(),
            forall|j: int| 0 <= j < kids@.len() ==> #[trigger] kid_pcts@[j] == pct_at(values_of(kv), total, j),
            forall|j: int| 0 <= j < kids@.len() ==> (#[trigger] kids@[j]).value.valid(),
            forall|j: int| 0 <= j < out@.len() ==> (#[trigger] out@[j]).value.valid(),
            share_views(out@) == crate::sorting::isort(children_under(cv, kv, total, top@, i as int), share_before()),
        decreases kids.len() - i,
    {
        let t = &kids[i];
        if str_eq(t.top.as_str(), top) {
            let (name, color) = name_and_color(cats, t.key.as_str());
            let x = CategoryShare {
                category_id: t.key.clone(),
                category_name: name,
                color,
                value: t.value,
                percentage: kid_pcts[i],
            };
            let ghost xv = (x.category_id@, x.category_name@, x.color@, x.value, x.percentage);
            assert(xv == child_share(cv, kv, total, i as int));
            let mut k: usize = out.len();
            while k > 0 && dec_lt(out[k - 1].value, x.value)
                invariant
                    k <= out@.len(),
                    x.value.valid(),
                    forall|j: int| 0 <= j < out@.len() ==> (#[trigger] out@[j]).value.valid(),
                    forall|m: int| k <= m < out@.len() ==> (share_before())(xv, #[trigger] share_views(out@)[m]),
                    xv.3 == x.value,
                decreases k,
            {
                k = k - 1;
            }
            let ghost before = share_views(out@);
            proof {
                crate::sorting::lemma_ins_at(before, xv, share_before(), k as int);
                assert(children_under(cv, kv, total, top@, i + 1) == children_under(cv, kv, total, top@, i as int).push(xv));
                let c = children_under(cv, kv, total, top@, i + 1);
                assert(c.drop_last() == children_under(cv, kv, total, top@, i as int));
            }
            out.insert(k, x);
            assert(share_views(out@) =~= before.take(k as int).push(xv) + before.skip(k as int));
        }
        i = i + 1;
    }
    out
}

/// The figures fit the range of the arithmetic: the categories' parents
/// have no cycle (when rolling up), every figure is valid, and the values
/// spread over the categories, and their percentages of a positive total,
/// stay well below the largest value.
pub open spec fn aggregate_in_range(
    hs: Seq<HoldingView>,
    tid: Seq<char>,
    cats: Seq<CatView>,
    assigns: Seq<AssetAssignView>,
    total: Dec,
    rollup: bool,
) -> bool {
    let c = roll_cost(hs, tid, assigns, hs.len() as int);
    &&& rollup ==> acyclic(cats)
    &&& forall|i: int| 0 <= i < hs.len() ==> (#[trigger] hs[i]).2.valid()
    &&& total.valid()
    &&& c <= max_units()
    &&& total.units() > 0 ==> 200 * (100 * pow10(28) * c / total.units() + 102 * c) + 20000 * pow10(28)
        <= max_units()
}

/// Breaks the holdings down by taxonomy `taxonomy_id`. Each holding's
/// value goes to the categories its asset is assigned to in the taxonomy,
/// weighted by the assignment (in basis points), and is counted under the
/// category's top-level ancestor when rolling up; cash counts only in the
/// asset classes, as bank deposits; a holding with no assignment in the
/// taxonomy counts as "Unknown". The positive counted-under totals become
/// the breakdown, largest first, each with its percentage of `total_value`
/// (largest-remainder rounding) and, when rolling up, the categories
/// rolled into it, largest first.
pub fn aggregate_by_taxonomy(
    holdings: &Vec<AllocationHolding>,
    taxonomy_id: &str,
    taxonomy_name: &str,
    taxonomy_color: &str,
    categories: &Vec<Category>,
    assignments_by_asset: &Vec<AssetAssignments>,
    total_value: Dec,
    rollup_to_top_level: bool,
) -> (r: TaxonomyAllocation)
    requires
        aggregate_in_range(
            holding_views(holdings@),
            taxonomy_id@,
            cat_views(categories@),
            asset_assign_views(assignments_by_asset@),
            total_value,
            rollup_to_top_level,
        ),
    ensures
        r.taxonomy_id@ == taxonomy_id@,
        r.taxonomy_name@ == taxonomy_name@,
        r.color@ == taxonomy_color@,
        alloc_views(r.categories@) == breakdown(
            cat_views(categories@),
            rolled_up(
                holding_views(holdings@),
                taxonomy_id@,
                cat_views(categories@),
                asset_assign_views(assignments_by_asset@),
                rollup_to_top_level,
                holdings@.len() as int,
            ),
            total_value,
            rollup_to_top_level,
        ),
{
    let ghost hv = holding_views(holdings@);
    let ghost cv = cat_views(categories@);
    let ghost av = asset_assign_views(assignments_by_asset@);
    let ghost p = pow10(28);
    let ghost c = roll_cost(hv, taxonomy_id@, av, hv.len() as int);
    proof {
        lemma_pow10_positive(28);
        assert forall|i: int| 0 <= i < holdings@.len() implies (#[trigger] holdings@[i]).market_value.valid() by {
            assert(hv[i].2 == holdings@[i].market_value);
        }
    }
    let (rolled, orig) = roll_up(holdings, taxonomy_id, categories, assignments_by_asset, rollup_to_top_level);
    let ghost st = (tally_views(rolled@), tally_views(orig@));
    let tops = positive_tallies(&rolled);
    let kids = child_tallies(&orig);
    let top_vals = tally_values(&tops);
    let kid_vals = tally_values(&kids);
    proof {
        let t = total_value.units();
        assert forall|j: int| 0 <= j < st.0.len() implies (#[trigger] st.0[j]).1.valid() by {
            assert(st.0[j].1 == rolled@[j].value);
        }
        assert forall|j: int| 0 <= j < st.1.len() implies (#[trigger] st.1[j]).1.valid() by {
            assert(st.1[j].1 == orig@[j].value);
        }
        if t > 0 {
            lemma_positive_rows_bound(st.0, total_value, st.0.len() as int);
            lemma_child_rows_bound(st.1, total_value, st.1.len() as int);
            assert(st.0.take(st.0.len() as int) =~= st.0);
            assert(st.1.take(st.1.len() as int) =~= st.1);
            lemma_magnitude_nonneg(st.0);
            lemma_magnitude_nonneg(st.1);
            assert(100 * p * magnitude(st.0) <= 100 * p * c) by (nonlinear_arith)
                requires
                    magnitude(st.0) <= c,
                    p >= 1,
            ;
            assert(100 * p * magnitude(st.0) >= 0) by (nonlinear_arith)
                requires
                    magnitude(st.0) >= 0,
                    p >= 1,
            ;
            assert(100 * p * magnitude(st.1) >= 0) by (nonlinear_arith)
                requires
                    magnitude(st.1) >= 0,
                    p >= 1,
            ;
            assert(100 * p * magnitude(st.1) <= 100 * p * c) by (nonlinear_arith)
                requires
                    magnitude(st.1) <= c,
                    p >= 1,
            ;
            lemma_floor_mono(100 * p * magnitude(st.0), 100 * p * c, t);
            lemma_floor_mono(100 * p * magnitude(st.1), 100 * p * c, t);
            assert(102 * p * st.0.len() <= 102 * c) by (nonlinear_arith)
                requires
                    st.0.len() * p <= c,
            ;
            assert(102 * p * st.1.len() <= 102 * c) by (nonlinear_arith)
                requires
                    st.1.len() * p <= c,
            ;
        }
        assert forall|i: int| 0 <= i < top_vals@.len() implies (#[trigger] top_vals@[i]).valid() by {
            if t > 0 {
                assert(top_vals@[i] == positive_rows(st.0, st.0.len() as int)[i].1);
            } else {
                lemma_positive_rows_valid(st.0, st.0.len() as int);
                assert(top_vals@[i] == positive_rows(st.0, st.0.len() as int)[i].1);
            }
        }
        assert forall|i: int| 0 <= i < kid_vals@.len() implies (#[trigger] kid_vals@[i]).valid() by {
            lemma_child_rows_valid(st.1, st.1.len() as int);
            assert(kid_vals@[i] == child_rows(st.1, st.1.len() as int)[i].1);
        }
    }
    proof {
        lemma_positive_rows_valid(st.0, st.0.len() as int);
        lemma_child_rows_valid(st.1, st.1.len() as int);
        assert forall|j: int| 0 <= j < kids@.len() implies (#[trigger] kids@[j]).value.valid() by {
            assert(kids@[j].value == tally_views(kids@)[j].1);
        }
        assert forall|j: int| 0 <= j < tops@.len() implies (#[trigger] tops@[j]).value.valid() by {
            assert(tops@[j].value == tally_views(tops@)[j].1);
        }
    }
    let top_pcts = row_percentages(&top_vals, total_value);
    let kid_pcts = row_percentages(&kid_vals, total_value);
    let ghost tv = tally_views(tops@);
    let ghost kv = tally_views(kids@);
    let mut out: Vec<CategoryAllocation> = Vec::new();
    let mut i: usize = 0;
    while i < tops.len()
        invariant
            cv == cat_views(categories@),
            tv == tally_views(tops@),
            kv == tally_views(kids@),
            i <= tops@.len(),
            top_pcts@.len() == tops@.len(),
            forall|j: int| 0 <= j < tops@.len() ==> #[trigger] top_pcts@[j] == pct_at(values_of(tv), total_value, j),
            kid_pcts@.len() == kids@.len(),
            forall|j: int| 0 <= j < kids@.len() ==> #[trigger] kid_pcts@[j] == pct_at(values_of(kv), total_value, j),
            forall|j: int| 0 <= j < kids@.len() ==> (#[trigger] kids@[j]).value.valid(),
            forall|j: int| 0 <= j < tops@.len() ==> (#[trigger] tops@[j]).value.valid(),
            forall|j: int| 0 <= j < out@.len() ==> (#[trigger] out@[j]).value.valid(),
            alloc_views(out@) == crate::sorting::isort(
                top_allocs(cv, tv, kv, total_value, rollup_to_top_level, i as int),
                alloc_before(),
            ),
        decreases tops.len() - i,
    {
        let t = &tops[i];
        let (name, color) = if str_eq(t.key.as_str(), "__UNKNOWN__") {
            (owned("Unknown"), owned("#878580"))
        } else {
            name_and_color(categories, t.key.as_str())
        };
        let children = if rollup_to_top_level {
            children_for(categories, &kids, &kid_pcts, total_value, t.key.as_str())
        } else {
            Vec::new()
        };
        let x = CategoryAllocation {
            category_id: t.key.clone(),
            category_name: name,
            color,
            value: t.value,
            percentage: top_pcts[i],
            children,
        };
        let ghost xv = ((x.category_id@, x.category_name@, x.color@, x.value, x.percentage), share_views(x.children@));
        proof {
            assert(xv.1 == top_alloc(cv, tv, kv, total_value, rollup_to_top_level, i as int).1);
            assert(xv == top_alloc(cv, tv, kv, total_value, rollup_to_top_level, i as int));
        }
        let mut k: usize = out.len();
        while k > 0 && dec_lt(out[k - 1].value, x.value)
            invariant
                k <= out@.len(),
                x.value.valid(),
                forall|j: int| 0 <= j < out@.len() ==> (#[trigger] out@[j]).value.valid(),
                forall|m: int| k <= m < out@.len() ==> (alloc_before())(xv, #[trigger] alloc_views(out@)[m]),
                xv.0.3 == x.value,
            decreases k,
        {
            k = k - 1;
        }
        let ghost before = alloc_views(out@);
        proof {
            crate::sorting::lemma_ins_at(before, xv, alloc_before(), k as int);
            let a = top_allocs(cv, tv, kv, total_value, rollup_to_top_level, i + 1);
            assert(a.drop_last() == top_allocs(cv, tv, kv, total_value, rollup_to_top_level, i as int));
        }
        out.insert(k, x);
        assert(alloc_views(out@) =~= before.take(k as int).push(xv) + before.skip(k as int));
        i = i + 1;
    }
    TaxonomyAllocation {
        taxonomy_id: owned(taxonomy_id),
        taxonomy_name: owned(taxonomy_name),
        color: owned(taxonomy_color),
        categories: out,
    }
}

proof fn lemma_positive_rows_valid(s: Seq<TallyView>, k: int)
    requires
        0 <= k <= s.len(),
        forall|j: int| 0 <= j < s.len() ==> (#[trigger] s[j]).1.valid(),
    ensures
        forall|i: int| 0 <= i < positive_rows(s, k).len() ==> (#[trigger] positive_rows(s, k)[i]).1.valid(),
    decreases k,
{
    if k > 0 {
        lemma_positive_rows_valid(s, k - 1);
        let prev = positive_rows(s, k - 1);
        let cur = positive_rows(s, k);
        assert forall|i: int| 0 <= i < cur.len() implies (#[trigger] cur[i]).1.valid() by {
            if i < prev.len() {
                assert(cur[i] == prev[i]);
            } else {
                assert(cur[i] == s[k - 1]);
            }
        }
    }
}

proof fn lemma_child_rows_valid(s: Seq<TallyView>, k: int)
    requires
        0 <= k <= s.len(),
        forall|j: int| 0 <= j < s.len() ==> (#[trigger] s[j]).1.valid(),
    ensures
        forall|i: int| 0 <= i < child_rows(s, k).len() ==> (#[trigger] child_rows(s, k)[i]).1.valid(),
    decreases k,
{
    if k > 0 {
        lemma_child_rows_valid(s, k - 1);
        let prev = child_rows(s, k - 1);
        let cur = child_rows(s, k);
        assert forall|i: int| 0 <= i < cur.len() implies (#[trigger] cur[i]).1.valid() by {
            if i < prev.len() {
                assert(cur[i] == prev[i]);
            } else {
                assert(cur[i] == s[k - 1]);
            }
        }
    }
}

// ─── the whole portfolio ──────────────────────────────────────────────────

/// A taxonomy: user-created ones are not system taxonomies.
pub struct Taxonomy {
    pub id: String,
    pub name: String,
    pub color: String,
    pub is_system: bool,
}

pub struct TaxonomyWithCategories {
    pub taxonomy: Taxonomy,
    pub categories: Vec<Category>,
}

/// The breakdowns of a portfolio by the standard taxonomies and by the
/// user's own, with the portfolio's total value.
pub struct PortfolioAllocations {
    pub asset_classes: TaxonomyAllocation,
    pub sectors: TaxonomyAllocation,
    pub regions: TaxonomyAllocation,
    pub risk_category: TaxonomyAllocation,
    pub security_types: TaxonomyAllocation,
    pub custom_groups: Vec<TaxonomyAllocation>,
    pub total_value: Dec,
}

pub type TaxView = (Seq<char>, Seq<char>, Seq<char>, Seq<AllocView>);

pub open spec fn tax_view(t: TaxonomyAllocation) -> TaxView {
    (t.taxonomy_id@, t.taxonomy_name@, t.color@, alloc_views(t.categories@))
}

pub open spec fn tax_views(v: Seq<TaxonomyAllocation>) -> Seq<TaxView> {
    v.map_values(|t: TaxonomyAllocation| tax_view(t))
}

/// A taxonomy as the breakdown reads it: id, name, colour, whether it is
/// a system taxonomy, and its categories.
pub type TaxonomyView = (Seq<char>, Seq<char>, Seq<char>, bool, Seq<CatView>);

pub open spec fn taxonomy_views(v: Seq<TaxonomyWithCategories>) -> Seq<TaxonomyView> {
    v.map_values(
        |t: TaxonomyWithCategories|
            (t.taxonomy.id@, t.taxonomy.name@, t.taxonomy.color@, t.taxonomy.is_system, cat_views(t.categories@)),
    )
}

pub ghost struct PortfolioView {
    pub asset_classes: TaxView,
    pub sectors: TaxView,
    pub regions: TaxView,
    pub risk_category: TaxView,
    pub security_types: TaxView,
    pub custom_groups: Seq<TaxView>,
}

impl PortfolioAllocations {
    pub open spec fn view(&self) -> PortfolioView {
        PortfolioView {
            asset_classes: tax_view(self.asset_classes),
            sectors: tax_view(self.sectors),
            regions: tax_view(self.regions),
            risk_category: tax_view(self.risk_category),
            security_types: tax_view(self.security_types),
            custom_groups: tax_views(self.custom_groups@),
        }
    }
}

/// The standard taxonomies before any is computed: no categories.
pub open spec fn no_allocations() -> PortfolioView {
    PortfolioView {
        asset_classes: ("asset_classes"@, "Asset Classes"@, "#879a39"@, Seq::empty()),
        sectors: ("industries_gics"@, "Sectors"@, "#da702c"@, Seq::empty()),
        regions: ("regions"@, "Regions"@, "#8b7ec8"@, Seq::empty()),
        risk_category: ("risk_category"@, "Risk Category"@, "#d14d41"@, Seq::empty()),
        security_types: ("instrument_type"@, "Instrument Type"@, "#4385be"@, Seq::empty()),
        custom_groups: Seq::empty(),
    }
}

/// How a taxonomy is broken down: the name shown, whether the total
/// includes cash, and whether categories roll up; none for a system
/// taxonomy that is not one of the standard ones.
pub open spec fn taxonomy_plan(t: TaxonomyView) -> Option<(Seq<char>, bool, bool)> {
    if t.0 == "asset_classes"@ {
        Some((t.1, true, true))
    } else if t.0 == "industries_gics"@ {
        Some(("Sectors"@, false, true))
    } else if t.0 == "regions"@ {
        Some(("Regions"@, false, true))
    } else if t.0 == "risk_category"@ {
        Some(("Risk Category"@, false, false))
    } else if t.0 == "instrument_type"@ {
        Some(("Instrument Type"@, false, true))
    } else if !t.3 {
        Some((t.1, false, false))
    } else {
        None
    }
}

/// The sum of the values of the first `k` holdings (all of them, or those
/// that are not cash), added in order from zero.
pub open spec fn holdings_total(hs: Seq<HoldingView>, with_cash: bool, k: int) -> Dec
    decreases k,
{
    if k <= 0 {
        zero_dec()
    } else {
        let prev = holdings_total(hs, with_cash, k - 1);
        if with_cash || hs[k - 1].0 != HoldingType::Cash {
            plus(prev, hs[k - 1].2)
        } else {
            prev
        }
    }
}

/// The breakdowns after the first `k` taxonomies; a later taxonomy with
/// a standard id replaces an earlier one, and a user taxonomy is kept only
/// when its breakdown has a category.
pub open spec fn portfolio_fold(hs: Seq<HoldingView>, taxes: Seq<TaxonomyView>, assigns: Seq<AssetAssignView>, k: int) -> PortfolioView
    decreases k,
{
    if k <= 0 {
        no_allocations()
    } else {
        let prev = portfolio_fold(hs, taxes, assigns, k - 1);
        let t = taxes[k - 1];
        match taxonomy_plan(t) {
            None => prev,
            Some((name, with_cash, rollup)) => {
                let total = holdings_total(hs, with_cash, hs.len() as int);
                let a = (t.0, name, t.2, breakdown(t.4, rolled_up(hs, t.0, t.4, assigns, rollup, hs.len() as int), total, rollup));
                if t.0 == "asset_classes"@ {
                    PortfolioView { asset_classes: a, ..prev }
                } else if t.0 == "industries_gics"@ {
                    PortfolioView { sectors: a, ..prev }
                } else if t.0 == "regions"@ {
                    PortfolioView { regions: a, ..prev }
                } else if t.0 == "risk_category"@ {
                    PortfolioView { risk_category: a, ..prev }
                } else if t.0 == "instrument_type"@ {
                    PortfolioView { security_types: a, ..prev }
                } else if a.3.len() > 0 {
                    PortfolioView { custom_groups: prev.custom_groups.push(a), ..prev }
                } else {
                    prev
                }
            },
        }
    }
}

pub open spec fn holdings_magnitude(hs: Seq<HoldingView>, k: int) -> int
    decreases k,
{
    if k <= 0 {
        0
    } else {
        holdings_magnitude(hs, k - 1) + abs_int(hs[k - 1].2.units()) + pow10(28)
    }
}

/// The exact sum (times 10^28) of the values of the first `k` holdings.
pub open spec fn exact_total(hs: Seq<HoldingView>, with_cash: bool, k: int) -> int
    decreases k,
{
    if k <= 0 {
        0
    } else {
        exact_total(hs, with_cash, k - 1) + if with_cash || hs[k - 1].0 != HoldingType::Cash {
            hs[k - 1].2.units()
        } else {
            0
        }
    }
}

/// A total whose exact value is `e` (off by less than one per holding
/// once summed): clearly negative or zero, or clearly positive with the
/// percentages of values costing `c` in range.
pub open spec fn total_in_range(e: int, n: int, c: int) -> bool {
    let slack = n * pow10(28);
    e + slack <= 0 || (e - slack > 0 && 200 * (100 * pow10(28) * c / (e - slack) + 102 * c) + 20000 * pow10(28)
        <= max_units())
}

/// The holdings, their totals and every taxonomy's breakdown fit the range
/// of the arithmetic (see [`aggregate_in_range`]).
pub open spec fn portfolio_in_range(hs: Seq<HoldingView>, taxes: Seq<TaxonomyView>, assigns: Seq<AssetAssignView>) -> bool {
    &&& forall|i: int| 0 <= i < hs.len() ==> (#[trigger] hs[i]).2.valid()
    &&& holdings_magnitude(hs, hs.len() as int) <= max_units()
    &&& forall|j: int|
        0 <= j < taxes.len() ==> match #[trigger] taxonomy_plan(taxes[j]) {
            Some((name, with_cash, rollup)) => {
                let c = roll_cost(hs, taxes[j].0, assigns, hs.len() as int);
                &&& rollup ==> acyclic(taxes[j].4)
                &&& c <= max_units()
                &&& total_in_range(exact_total(hs, with_cash, hs.len() as int), hs.len() as int, c)
            },
            None => true,
        }
}

/// What an empty portfolio is given: every breakdown blank.
pub open spec fn blank_allocations() -> PortfolioView {
    let blank = (Seq::<char>::empty(), Seq::<char>::empty(), Seq::<char>::empty(), Seq::<AllocView>::empty());
    PortfolioView {
        asset_classes: blank,
        sectors: blank,
        regions: blank,
        risk_category: blank,
        security_types: blank,
        custom_groups: Seq::empty(),
    }
}

proof fn lemma_holdings_magnitude_grows(hs: Seq<HoldingView>, j: int, k: int)
    requires
        0 <= j <= k <= hs.len(),
    ensures
        0 <= holdings_magnitude(hs, j) <= holdings_magnitude(hs, k),
    decreases k,
{
    lemma_pow10_positive(28);
    if j < k {
        lemma_holdings_magnitude_grows(hs, j, k - 1);
    } else if k > 0 {
        lemma_holdings_magnitude_grows(hs, k - 1, k - 1);
    }
}

fn holdings_sum(holdings: &Vec<AllocationHolding>, with_cash: bool) -> (r: Dec)
    requires
        forall|i: int| 0 <= i < holdings@.len() ==> (#[trigger] holding_views(holdings@)[i]).2.valid(),
        holdings_magnitude(holding_views(holdings@), holdings@.len() as int) <= max_units(),
    ensures
        r == holdings_total(holding_views(holdings@), with_cash, holdings@.len() as int),
        r.valid(),
        abs_int(r.units() - exact_total(holding_views(holdings@), with_cash, holdings@.len() as int)) <= holdings@.len()
            * pow10(28),
{
    let ghost hv = holding_views(holdings@);
    let ghost p = pow10(28);
    proof {
        lemma_pow10_positive(28);
    }
    let mut total = Dec::zero();
    let mut i: usize = 0;
    assert(0 * p == 0);
    while i < holdings.len()
        invariant
            hv == holding_views(holdings@),
            p == pow10(28),
            p >= 1,
            i <= holdings@.len(),
            forall|k: int| 0 <= k < holdings@.len() ==> (#[trigger] hv[k]).2.valid(),
            holdings_magnitude(hv, holdings@.len() as int) <= max_units(),
            total == holdings_total(hv, with_cash, i as int),
            total.valid(),
            abs_int(total.units()) <= holdings_magnitude(hv, i as int),
            abs_int(total.units() - exact_total(hv, with_cash, i as int)) <= i * p,
        decreases holdings.len() - i,
    {
        let h = &holdings[i];
        proof {
            lemma_holdings_magnitude_grows(hv, i + 1, holdings@.len() as int);
            assert(hv[i as int] == (h.holding_type, opt_chars(h.asset_id), h.market_value));
            assert(h.market_value.valid());
            assert((i + 1) * p == i * p + p) by (nonlinear_arith);
        }
        let counts = with_cash || match h.holding_type {
            HoldingType::Cash => false,
            _ => true,
        };
        if counts {
            total = dec_add(total, h.market_value);
        }
        i = i + 1;
    }
    total
}

proof fn lemma_total_bound(t: int, e: int, n: int, c: int)
    requires
        abs_int(t - e) <= n * pow10(28),
        total_in_range(e, n, c),
        c >= 0,
        t > 0,
    ensures
        200 * (100 * pow10(28) * c / t + 102 * c) + 20000 * pow10(28) <= max_units(),
{
    let p = pow10(28);
    lemma_pow10_positive(28);
    let d = e - n * p;
    assert(d > 0);
    assert(d <= t);
    assert(100 * p * c >= 0) by (nonlinear_arith)
        requires
            c >= 0,
            p >= 1,
    ;
    assert(100 * p * c / t <= 100 * p * c / d) by (nonlinear_arith)
        requires
            100 * p * c >= 0,
            0 < d <= t,
    ;
}

/// One taxonomy's breakdown, with the name, total and roll-up its plan
/// gives.
fn taxonomy_breakdown(
    holdings: &Vec<AllocationHolding>,
    twc: &TaxonomyWithCategories,
    name: &str,
    total: Dec,
    rollup: bool,
    assignments_by_asset: &Vec<AssetAssignments>,
    Ghost(e): Ghost<int>,
) -> (r: TaxonomyAllocation)
    requires
        forall|i: int| 0 <= i < holdings@.len() ==> (#[trigger] holding_views(holdings@)[i]).2.valid(),
        total.valid(),
        abs_int(total.units() - e) <= holdings@.len() * pow10(28),
        rollup ==> acyclic(cat_views(twc.categories@)),
        roll_cost(holding_views(holdings@), twc.taxonomy.id@, asset_assign_views(assignments_by_asset@), holdings@.len() as int)
            <= max_units(),
        total_in_range(
            e,
            holdings@.len() as int,
            roll_cost(holding_views(holdings@), twc.taxonomy.id@, asset_assign_views(assignments_by_asset@), holdings@.len() as int),
        ),
    ensures
        tax_view(r) == (
            twc.taxonomy.id@,
            name@,
            twc.taxonomy.color@,
            breakdown(
                cat_views(twc.categories@),
                rolled_up(
                    holding_views(holdings@),
                    twc.taxonomy.id@,
                    cat_views(twc.categories@),
                    asset_assign_views(assignments_by_asset@),
                    rollup,
                    holdings@.len() as int,
                ),
                total,
                rollup,
            ),
        ),
{
    let ghost hv = holding_views(holdings@);
    let ghost c = roll_cost(hv, twc.taxonomy.id@, asset_assign_views(assignments_by_asset@), hv.len() as int);
    proof {
        lemma_roll_cost_grows(hv, twc.taxonomy.id@, asset_assign_views(assignments_by_asset@), 0, hv.len() as int);
        if total.units() > 0 {
            lemma_total_bound(total.units(), e, hv.len() as int, c);
        }
    }
    aggregate_by_taxonomy(
        holdings,
        twc.taxonomy.id.as_str(),
        name,
        twc.taxonomy.color.as_str(),
        &twc.categories,
        assignments_by_asset,
        total,
        rollup,
    )
}

fn blank_taxonomy() -> (r: TaxonomyAllocation)
    ensures
        tax_view(r) == (Seq::<char>::empty(), Seq::<char>::empty(), Seq::<char>::empty(), Seq::<AllocView>::empty()),
{
    let r = TaxonomyAllocation { taxonomy_id: String::new(), taxonomy_name: String::new(), color: String::new(), categories: Vec::new() };
    assert(alloc_views(r.categories@) =~= Seq::<AllocView>::empty());
    r
}

fn empty_taxonomy(id: &str, name: &str, color: &str) -> (r: TaxonomyAllocation)
    ensures
        tax_view(r) == (id@, name@, color@, Seq::<AllocView>::empty()),
{
    let r = TaxonomyAllocation { taxonomy_id: owned(id), taxonomy_name: owned(name), color: owned(color), categories: Vec::new() };
    assert(alloc_views(r.categories@) =~= Seq::<AllocView>::empty());
    r
}

/// Breaks the portfolio down by every taxonomy: the asset classes (their
/// total includes cash), sectors, regions and instrument types rolled up
/// to their top-level categories, the risk categories as they are, and
/// each user taxonomy that has a category in the breakdown; a later
/// taxonomy with a standard id replaces an earlier one. The portfolio's
/// total value includes cash. An empty portfolio gets blank breakdowns and
/// a zero total.
pub fn portfolio_allocations(
    holdings: &Vec<AllocationHolding>,
    taxonomies: &Vec<TaxonomyWithCategories>,
    assignments_by_asset: &Vec<AssetAssignments>,
) -> (r: PortfolioAllocations)
    requires
        portfolio_in_range(holding_views(holdings@), taxonomy_views(taxonomies@), asset_assign_views(assignments_by_asset@)),
    ensures
        holdings@.len() == 0 ==> r@ == blank_allocations() && r.total_value == zero_dec(),
        holdings@.len() > 0 ==> r@ == portfolio_fold(
            holding_views(holdings@),
            taxonomy_views(taxonomies@),
            asset_assign_views(assignments_by_asset@),
            taxonomies@.len() as int,
        ) && r.total_value == holdings_total(holding_views(holdings@), true, holdings@.len() as int),
{
    let ghost hv = holding_views(holdings@);
    let ghost tv = taxonomy_views(taxonomies@);
    let ghost av = asset_assign_views(assignments_by_asset@);
    if holdings.len() == 0 {
        let r = PortfolioAllocations {
            asset_classes: blank_taxonomy(),
            sectors: blank_taxonomy(),
            regions: blank_taxonomy(),
            risk_category: blank_taxonomy(),
            security_types: blank_taxonomy(),
            custom_groups: Vec::new(),
            total_value: Dec::zero(),
        };
        assert(tax_views(r.custom_groups@) =~= Seq::<TaxView>::empty());
        return r;
    }
    let total_value = holdings_sum(holdings, false);
    let total_with_cash = holdings_sum(holdings, true);
    let mut asset_classes = empty_taxonomy("asset_classes", "Asset Classes", "#879a39");
    let mut sectors = empty_taxonomy("industries_gics", "Sectors", "#da702c");
    let mut regions = empty_taxonomy("regions", "Regions", "#8b7ec8");
    let mut risk = empty_taxonomy("risk_category", "Risk Category", "#d14d41");
    let mut security_types = empty_taxonomy("instrument_type", "Instrument Type", "#4385be");
    let mut custom: Vec<TaxonomyAllocation> = Vec::new();
    assert(tax_views(custom@) =~= Seq::<TaxView>::empty());
    let mut j: usize = 0;
    while j < taxonomies.len()
        invariant
            hv == holding_views(holdings@),
            tv == taxonomy_views(taxonomies@),
            av == asset_assign_views(assignments_by_asset@),
            portfolio_in_range(hv, tv, av),
            total_value == holdings_total(hv, false, hv.len() as int),
            total_with_cash == holdings_total(hv, true, hv.len() as int),
            total_value.valid() && total_with_cash.valid(),
            abs_int(total_value.units() - exact_total(hv, false, hv.len() as int)) <= holdings@.len() * pow10(28),
            abs_int(total_with_cash.units() - exact_total(hv, true, hv.len() as int)) <= holdings@.len() * pow10(28),
            j <= taxonomies@.len(),
            (PortfolioView {
                asset_classes: tax_view(asset_classes),
                sectors: tax_view(sectors),
                regions: tax_view(regions),
                risk_category: tax_view(risk),
                security_types: tax_view(security_types),
                custom_groups: tax_views(custom@),
            }) == portfolio_fold(hv, tv, av, j as int),
        decreases taxonomies.len() - j,
    {
        let twc = &taxonomies[j];
        let id = twc.taxonomy.id.as_str();
        let ghost t = tv[j as int];
        proof {
            assert(t == (twc.taxonomy.id@, twc.taxonomy.name@, twc.taxonomy.color@, twc.taxonomy.is_system, cat_views(twc.categories@)));
            assert(forall|i: int| 0 <= i < holdings@.len() ==> (#[trigger] hv[i]).2.valid());
            assert(taxonomy_plan(t) == taxonomy_plan(tv[j as int]));
        }
        if str_eq(id, "asset_classes") {
            asset_classes = taxonomy_breakdown(holdings, twc, twc.taxonomy.name.as_str(), total_with_cash, true, assignments_by_asset, Ghost(exact_total(hv, true, hv.len() as int)));
        } else if str_eq(id, "industries_gics") {
            sectors = taxonomy_breakdown(holdings, twc, "Sectors", total_value, true, assignments_by_asset, Ghost(exact_total(hv, false, hv.len() as int)));
        } else if str_eq(id, "regions") {
            regions = taxonomy_breakdown(holdings, twc, "Regions", total_value, true, assignments_by_asset, Ghost(exact_total(hv, false, hv.len() as int)));
        } else if str_eq(id, "risk_category") {
            risk = taxonomy_breakdown(holdings, twc, "Risk Category", total_value, false, assignments_by_asset, Ghost(exact_total(hv, false, hv.len() as int)));
        } else if str_eq(id, "instrument_type") {
            security_types = taxonomy_breakdown(holdings, twc, "Instrument Type", total_value, true, assignments_by_asset, Ghost(exact_total(hv, false, hv.len() as int)));
        } else if !twc.taxonomy.is_system {
            let a = taxonomy_breakdown(holdings, twc, twc.taxonomy.name.as_str(), total_value, false, assignments_by_asset, Ghost(exact_total(hv, false, hv.len() as int)));
            if a.categories.len() > 0 {
                let ghost before = tax_views(custom@);
                custom.push(a);
                assert(tax_views(custom@) =~= before.push(tax_view(a)));
            }
        }
        j = j + 1;
    }
    PortfolioAllocations {
        asset_classes,
        sectors,
        regions,
        risk_category: risk,
        security_types,
        custom_groups: custom,
        total_value: total_with_cash,
    }
}

} // verus!
