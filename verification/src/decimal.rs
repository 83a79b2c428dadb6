//! Money figures. A figure is a value of rust_decimal held as its mantissa
//! and scale (the number `mantissa / 10^scale`); the arithmetic, rounding
//! and comparisons are rust_decimal's own, reached through the trusted
//! items below.
use vstd::prelude::*;

use rust_decimal::{Decimal, MathematicalOps};

verus! {

/// `mantissa / 10^scale`.
#[derive(Clone, Copy, Debug, PartialEq, Eq, Structural)]
pub struct Dec {
    pub mantissa: i128,
    pub scale: u32,
}

pub open spec fn pow10(n: nat) -> int
    decreases n,
{
    if n == 0 {
        1
    } else {
        10 * pow10((n - 1) as nat)
    }
}

/// 2^96: every rust_decimal mantissa is smaller in magnitude.
pub open spec fn mantissa_bound() -> int {
    0x1_0000_0000_0000_0000_0000_0000
}

/// The largest value, times 10^28.
pub open spec fn max_units() -> int {
    (mantissa_bound() - 1) * pow10(28)
}

pub open spec fn abs_int(x: int) -> int {
    if x < 0 {
        -x
    } else {
        x
    }
}

impl Dec {
    /// A value rust_decimal can hold: a mantissa below 2^96 in magnitude
    /// and a scale of at most 28.
    pub open spec fn valid(self) -> bool {
        -mantissa_bound() < self.mantissa < mantissa_bound() && self.scale <= 28
    }

    /// The value times 10^28; an integer for every valid figure, so that
    /// figures compare and add as these integers do.
    pub open spec fn units(self) -> int {
        self.mantissa * pow10((28 - self.scale) as nat)
    }

    pub open spec fn pair(self) -> (i128, u32) {
        (self.mantissa, self.scale)
    }

    /// The whole number `n`.
    pub fn from_int(n: i64) -> (r: Dec)
        ensures
            r.valid(),
            r.mantissa == n,
            r.scale == 0,
            r.units() == n * pow10(28),
    {
        proof {
            lemma_pow10_positive(28);
        }
        Dec { mantissa: n as i128, scale: 0 }
    }

    pub fn zero() -> (r: Dec)
        ensures
            r.valid(),
            r.units() == 0,
            r.mantissa == 0 && r.scale == 0,
    {
        Dec { mantissa: 0, scale: 0 }
    }
}

pub proof fn lemma_pow10_positive(n: nat)
    ensures
        pow10(n) >= 1,
    decreases n,
{
    if n > 0 {
        lemma_pow10_positive((n - 1) as nat);
    }
}

/// Whether an exact result of `units` (times 10^28) can be written at
/// scale `scale` with a mantissa below 2^96.
pub open spec fn fits_at(units: int, scale: u32) -> bool {
    abs_int(units) < mantissa_bound() * pow10((28 - scale) as nat)
}

pub open spec fn max_scale(a: Dec, b: Dec) -> u32 {
    if a.scale < b.scale {
        b.scale
    } else {
        a.scale
    }
}

/// What rust_decimal's `+` gives for two figures (mantissa and scale).
pub uninterp spec fn decimal_add(a: (i128, u32), b: (i128, u32)) -> (i128, u32);

/// rust_decimal's `a + b`. Trusted: the result depends on the two figures
/// alone; it is the exact sum when that sum can be written at the larger
/// of the two scales, and otherwise the sum rounded to fewer decimals,
/// off by less than one; its scale is never above the larger scale (a zero
/// operand gives back the other one). `+` panics only when the sum is beyond the
/// largest value, which `requires` rules out.
#[verifier::external_body]
pub(crate) fn dec_add(a: Dec, b: Dec) -> (r: Dec)
    requires
        a.valid(),
        b.valid(),
        abs_int(a.units() + b.units()) <= max_units(),
    ensures
        r.valid(),
        r.pair() == decimal_add(a.pair(), b.pair()),
        fits_at(a.units() + b.units(), max_scale(a, b)) ==> r.units() == a.units() + b.units(),
        abs_int(r.units() - (a.units() + b.units())) < pow10(28),
        r.scale <= max_scale(a, b),
{
    let s = Decimal::from_i128_with_scale(a.mantissa, a.scale) + Decimal::from_i128_with_scale(
        b.mantissa,
        b.scale,
    );
    Dec { mantissa: s.mantissa(), scale: s.scale() }
}

/// What rust_decimal's `-` gives for two figures.
pub uninterp spec fn decimal_sub(a: (i128, u32), b: (i128, u32)) -> (i128, u32);

/// rust_decimal's `a - b`, trusted as `+` is.
#[verifier::external_body]
pub(crate) fn dec_sub(a: Dec, b: Dec) -> (r: Dec)
    requires
        a.valid(),
        b.valid(),
        abs_int(a.units() - b.units()) <= max_units(),
    ensures
        r.valid(),
        r.pair() == decimal_sub(a.pair(), b.pair()),
        fits_at(a.units() - b.units(), max_scale(a, b)) ==> r.units() == a.units() - b.units(),
        abs_int(r.units() - (a.units() - b.units())) < pow10(28),
        r.scale <= max_scale(a, b),
{
    let s = Decimal::from_i128_with_scale(a.mantissa, a.scale) - Decimal::from_i128_with_scale(
        b.mantissa,
        b.scale,
    );
    Dec { mantissa: s.mantissa(), scale: s.scale() }
}

/// What rust_decimal's `*` gives for two figures.
pub uninterp spec fn decimal_mul(a: (i128, u32), b: (i128, u32)) -> (i128, u32);

/// rust_decimal's `a * b`. Trusted: the result depends on the two figures
/// alone; a zero operand gives zero at scale 0; otherwise it is the exact
/// product when that can be written at the sum of the scales (at most 28)
/// with a mantissa below 2^96, and otherwise the product rounded to fewer
/// decimals (`rescale` in `ops/common.rs` drops just enough digits for the
/// mantissa to fit 96 bits and the scale 28), so that it is off by less
/// than one, and by at most 10^-26 times one plus the product's size; the
/// sign is the operands' sign product. `*` panics only when the product is
/// beyond the largest value, which `requires` rules out.
#[verifier::external_body]
pub(crate) fn dec_mul(a: Dec, b: Dec) -> (r: Dec)
    requires
        a.valid(),
        b.valid(),
        abs_int(a.units() * b.units()) <= max_units() * pow10(28),
    ensures
        r.valid(),
        r.pair() == decimal_mul(a.pair(), b.pair()),
        a.mantissa != 0 && b.mantissa != 0 && a.scale + b.scale <= 28 && abs_int(a.mantissa * b.mantissa)
            < mantissa_bound() ==> r.mantissa == a.mantissa * b.mantissa && r.scale == a.scale + b.scale,
        a.mantissa == 0 || b.mantissa == 0 ==> r.mantissa == 0 && r.scale == 0,
        abs_int(r.units() * pow10(28) - a.units() * b.units()) < pow10(28) * pow10(28),
        pow10(28) * abs_int(r.units() * pow10(28) - a.units() * b.units()) <= 100 * pow10(28) * pow10(28) + 100
            * abs_int(a.units() * b.units()),
        a.units() >= 0 && b.units() >= 0 ==> r.units() >= 0,
{
    let s = Decimal::from_i128_with_scale(a.mantissa, a.scale) * Decimal::from_i128_with_scale(
        b.mantissa,
        b.scale,
    );
    Dec { mantissa: s.mantissa(), scale: s.scale() }
}

/// What rust_decimal's `/` gives for two figures.
pub uninterp spec fn decimal_div(a: (i128, u32), b: (i128, u32)) -> (i128, u32);

/// rust_decimal's `a / b`: the quotient rounded to the precision a figure
/// holds. Trusted: the result depends on the two figures alone; it is off
/// from the exact quotient by less than one (it keeps every whole digit),
/// and by at most 10^-26 times one plus the quotient's size (`div_impl` in
/// `ops/div.rs` keeps adding digits until the scale is 28 or the mantissa
/// cannot take another digit within 96 bits, then rounds the last one); its
/// sign is the operands' sign quotient. `/` panics on a zero divisor and
/// when the quotient is beyond the largest value, which `requires` rules
/// out. Which way the last kept digit is rounded is not stated.
#[verifier::external_body]
pub(crate) fn dec_div(a: Dec, b: Dec) -> (r: Dec)
    requires
        a.valid(),
        b.valid(),
        b.mantissa != 0,
        abs_int(a.units()) * pow10(28) <= max_units() * abs_int(b.units()),
    ensures
        r.valid(),
        r.pair() == decimal_div(a.pair(), b.pair()),
        abs_int(r.units() * b.units() - a.units() * pow10(28)) < pow10(28) * abs_int(b.units()),
        abs_int(r.units() * b.units() - a.units() * pow10(28)) <= 100 * (abs_int(a.units()) + abs_int(b.units())),
        a.units() >= 0 && b.units() > 0 ==> r.units() >= 0,
{
    let s = Decimal::from_i128_with_scale(a.mantissa, a.scale) / Decimal::from_i128_with_scale(
        b.mantissa,
        b.scale,
    );
    Dec { mantissa: s.mantissa(), scale: s.scale() }
}

/// rust_decimal's `a < b`, which compares the values the figures stand
/// for. Trusted as that.
#[verifier::external_body]
pub(crate) fn dec_lt(a: Dec, b: Dec) -> (r: bool)
    requires
        a.valid(),
        b.valid(),
    ensures
        r == (a.units() < b.units()),
{
    Decimal::from_i128_with_scale(a.mantissa, a.scale) < Decimal::from_i128_with_scale(b.mantissa, b.scale)
}

pub fn dec_le(a: Dec, b: Dec) -> (r: bool)
    requires
        a.valid(),
        b.valid(),
    ensures
        r == (a.units() <= b.units()),
{
    !dec_lt(b, a)
}

/// `|m| / d`, rounded half to even.
pub open spec fn round_half_even(n: int, d: int) -> int {
    let q = n / d;
    let r = n % d;
    if 2 * r > d || (2 * r == d && q % 2 == 1) {
        q + 1
    } else {
        q
    }
}

pub open spec fn signed(negative: bool, n: int) -> int {
    if negative {
        -n
    } else {
        n
    }
}

/// `round_dp(dp)`: unchanged when the figure has at most `dp` decimals;
/// otherwise rounded half to even to `dp` decimals.
pub open spec fn rounded(d: Dec, dp: u32) -> (int, u32) {
    if d.scale <= dp {
        (d.mantissa as int, d.scale)
    } else {
        (
            signed(d.mantissa < 0, round_half_even(abs_int(d.mantissa as int), pow10((d.scale - dp) as nat))),
            dp,
        )
    }
}

/// A mantissa at scale `s` multiplied by ten, one digit at a time, at most
/// `steps` times and only while it stays below 2^96: the mantissa and scale
/// reached.
pub open spec fn grown(m: int, s: nat, steps: nat) -> (int, nat)
    decreases steps,
{
    if steps == 0 || abs_int(m * 10) >= mantissa_bound() {
        (m, s)
    } else {
        grown(m * 10, s + 1, (steps - 1) as nat)
    }
}

/// `trunc_with_scale(k)`: unchanged at scale `k`; zero at scale `k`; with
/// more than `k` decimals, cut to `k` decimals toward zero; with fewer,
/// brought up to scale `k` by multiplying by ten as far as the mantissa
/// stays below 2^96.
pub open spec fn truncated(d: Dec, k: u32) -> (int, u32) {
    if d.scale == k {
        (d.mantissa as int, d.scale)
    } else if d.mantissa == 0 {
        (0, k)
    } else if d.scale > k {
        (signed(d.mantissa < 0, abs_int(d.mantissa as int) / pow10((d.scale - k) as nat)), k)
    } else {
        let g = grown(d.mantissa as int, d.scale as nat, (k - d.scale) as nat);
        (g.0, g.1 as u32)
    }
}

/// rust_decimal's `round_dp(dp)` ("banker's rounding", as its
/// documentation says). Trusted as [`rounded`] states it.
#[verifier::external_body]
pub(crate) fn dec_round_dp(d: Dec, dp: u32) -> (r: Dec)
    requires
        d.valid(),
        dp <= 28,
    ensures
        r.valid(),
        (r.mantissa as int, r.scale) == rounded(d, dp),
{
    let s = Decimal::from_i128_with_scale(d.mantissa, d.scale).round_dp(dp);
    Dec { mantissa: s.mantissa(), scale: s.scale() }
}

/// rust_decimal's `trunc_with_scale(k)` ("a true truncation whereby no
/// rounding is performed"; a figure with fewer decimals is rescaled up).
/// Trusted as [`truncated`] states it.
#[verifier::external_body]
pub(crate) fn dec_trunc(d: Dec, k: u32) -> (r: Dec)
    requires
        d.valid(),
        k <= 28,
    ensures
        r.valid(),
        (r.mantissa as int, r.scale) == truncated(d, k),
{
    let s = Decimal::from_i128_with_scale(d.mantissa, d.scale).trunc_with_scale(k);
    Dec { mantissa: s.mantissa(), scale: s.scale() }
}

/// The magnitude of a figure (rust_decimal's `abs` clears the sign).
pub fn dec_abs(d: Dec) -> (r: Dec)
    requires
        d.valid(),
    ensures
        r.valid(),
        r.mantissa == abs_int(d.mantissa as int),
        r.scale == d.scale,
        r.units() == abs_int(d.units()),
{
    proof {
        lemma_pow10_positive((28 - d.scale) as nat);
        if d.mantissa < 0 {
            assert((-d.mantissa) * pow10((28 - d.scale) as nat) == -(d.mantissa * pow10((28 - d.scale) as nat)))
                by (nonlinear_arith);
        }
        assert(d.mantissa < 0 <==> d.units() < 0) by (nonlinear_arith)
            requires
                pow10((28 - d.scale) as nat) >= 1,
                d.units() == d.mantissa * pow10((28 - d.scale) as nat),
        ;
    }
    Dec {
        mantissa: if d.mantissa < 0 {
            -d.mantissa
        } else {
            d.mantissa
        },
        scale: d.scale,
    }
}

/// What rust_decimal's `Display` writes for a figure.
pub uninterp spec fn decimal_text(d: (i128, u32)) -> Seq<char>;

/// rust_decimal's `to_string`. Trusted to depend on the figure alone; the
/// text is not stated.
#[verifier::external_body]
pub(crate) fn dec_text(d: Dec) -> (r: String)
    requires
        d.valid(),
    ensures
        r@ == decimal_text(d.pair()),
{
    Decimal::from_i128_with_scale(d.mantissa, d.scale).to_string()
}

/// What rust_decimal's `Display` writes for a figure at `dp` decimals
/// (`{:.dp$}`).
pub uninterp spec fn decimal_text_dp(d: (i128, u32), dp: usize) -> Seq<char>;

/// `format!("{:.*}", dp, d)` on rust_decimal's value: the figure written
/// with `dp` decimals. Trusted to depend on the figure and `dp` alone; the
/// text is not stated.
#[verifier::external_body]
pub(crate) fn dec_text_dp(d: Dec, dp: usize) -> (r: String)
    requires
        d.valid(),
    ensures
        r@ == decimal_text_dp(d.pair(), dp),
{
    format!("{:.*}", dp, Decimal::from_i128_with_scale(d.mantissa, d.scale))
}

pub proof fn lemma_pow10_add(a: nat, b: nat)
    ensures
        pow10(a + b) == pow10(a) * pow10(b),
    decreases a,
{
    if a > 0 {
        lemma_pow10_add((a - 1) as nat, b);
        assert(pow10(a + b) == 10 * pow10((a - 1 + b) as nat));
        assert(10 * (pow10((a - 1) as nat) * pow10(b)) == (10 * pow10((a - 1) as nat)) * pow10(b))
            by (nonlinear_arith);
    }
}

/// Cutting decimals never moves a figure away from zero.
/// Growing keeps the value: the mantissa stays below 2^96 and the scale
/// rises by as many digits as the mantissa gained.
pub proof fn lemma_grown(m: int, s: nat, steps: nat)
    requires
        abs_int(m) < mantissa_bound(),
        s + steps <= 28,
    ensures
        s <= grown(m, s, steps).1 <= s + steps,
        abs_int(grown(m, s, steps).0) < mantissa_bound(),
        grown(m, s, steps).0 * pow10((28 - grown(m, s, steps).1) as nat) == m * pow10((28 - s) as nat),
    decreases steps,
{
    if !(steps == 0 || abs_int(m * 10) >= mantissa_bound()) {
        lemma_grown(m * 10, s + 1, (steps - 1) as nat);
        let e = (28 - (s + 1)) as nat;
        assert(pow10((28 - s) as nat) == 10 * pow10(e));
        assert((m * 10) * pow10(e) == m * (10 * pow10(e))) by (nonlinear_arith);
    }
}

pub proof fn lemma_truncated_smaller(d: Dec, k: u32)
    requires
        d.valid(),
        k <= 28,
    ensures
        ({
            let t = Dec { mantissa: truncated(d, k).0 as i128, scale: truncated(d, k).1 };
            &&& t.valid()
            &&& abs_int(t.units()) <= abs_int(d.units())
            &&& t.scale <= k
        }),
{
    if d.scale < k && d.mantissa != 0 {
        lemma_grown(d.mantissa as int, d.scale as nat, (k - d.scale) as nat);
    } else if d.scale > k && d.mantissa != 0 {
        let e = (d.scale - k) as nat;
        let lower = (28 - d.scale) as nat;
        lemma_pow10_positive(e);
        lemma_pow10_positive(lower);
        lemma_pow10_add(lower, e);
        assert((28 - k) as nat == lower + e);
        lemma_pow10_positive((28 - k) as nat);
        let m = abs_int(d.mantissa as int);
        let q = m / pow10(e);
        assert(q * pow10(e) <= m) by (nonlinear_arith)
            requires
                pow10(e) >= 1,
                m >= 0,
                q == m / pow10(e),
        ;
        assert(0 <= q <= m) by (nonlinear_arith)
            requires
                pow10(e) >= 1,
                m >= 0,
                q == m / pow10(e),
        ;
        let t = Dec { mantissa: truncated(d, k).0 as i128, scale: truncated(d, k).1 };
        assert(abs_int(t.mantissa as int) == q);
        assert(abs_int(t.units()) == q * pow10((28 - k) as nat)) by (nonlinear_arith)
            requires
                abs_int(t.mantissa as int) == q,
                t.units() == t.mantissa * pow10((28 - k) as nat),
                pow10((28 - k) as nat) >= 1,
        ;
        assert(abs_int(d.units()) == m * pow10(lower)) by (nonlinear_arith)
            requires
                m == abs_int(d.mantissa as int),
                d.units() == d.mantissa * pow10(lower),
                pow10(lower) >= 1,
        ;
        assert(q * pow10((28 - k) as nat) == (q * pow10(e)) * pow10(lower)) by (nonlinear_arith)
            requires
                pow10((28 - k) as nat) == pow10(lower) * pow10(e),
        ;
        assert((q * pow10(e)) * pow10(lower) <= m * pow10(lower)) by (nonlinear_arith)
            requires
                q * pow10(e) <= m,
                pow10(lower) >= 1,
        ;
    }
}

/// Cutting a figure that is not negative to `k` decimals keeps it not
/// negative, not above the figure, and within one unit of the `k`-th
/// decimal below it.
pub proof fn lemma_truncated_close(d: Dec, k: u32)
    requires
        d.valid(),
        k <= 28,
        d.mantissa >= 0,
    ensures
        ({
            let t = Dec { mantissa: truncated(d, k).0 as i128, scale: truncated(d, k).1 };
            &&& 0 <= t.units() <= d.units()
            &&& d.units() - t.units() < pow10((28 - k) as nat)
        }),
{
    lemma_truncated_smaller(d, k);
    lemma_pow10_positive((28 - k) as nat);
    lemma_pow10_positive((28 - d.scale) as nat);
    assert(d.units() >= 0) by (nonlinear_arith)
        requires
            d.mantissa >= 0,
            d.units() == d.mantissa * pow10((28 - d.scale) as nat),
            pow10((28 - d.scale) as nat) >= 1,
    ;
    let t = Dec { mantissa: truncated(d, k).0 as i128, scale: truncated(d, k).1 };
    if d.scale == k || d.mantissa == 0 {
        if d.mantissa == 0 {
            assert(t.units() == 0) by (nonlinear_arith)
                requires
                    t.mantissa == 0,
                    t.units() == t.mantissa * pow10((28 - t.scale) as nat),
            ;
            assert(d.units() == 0) by (nonlinear_arith)
                requires
                    d.mantissa == 0,
                    d.units() == d.mantissa * pow10((28 - d.scale) as nat),
            ;
        }
    } else if d.scale < k {
        lemma_grown(d.mantissa as int, d.scale as nat, (k - d.scale) as nat);
    } else {
        let e = (d.scale - k) as nat;
        let lower = (28 - d.scale) as nat;
        lemma_pow10_positive(e);
        lemma_pow10_positive(lower);
        lemma_pow10_add(lower, e);
        assert((28 - k) as nat == lower + e);
        let m = d.mantissa as int;
        let q = m / pow10(e);
        assert(q * pow10(e) <= m < q * pow10(e) + pow10(e)) by (nonlinear_arith)
            requires
                pow10(e) >= 1,
                m >= 0,
                q == m / pow10(e),
        ;
        assert(q >= 0) by (nonlinear_arith)
            requires
                pow10(e) >= 1,
                m >= 0,
                q == m / pow10(e),
        ;
        assert(t.mantissa == q);
        assert(t.units() == q * pow10((28 - k) as nat));
        assert(d.units() == m * pow10(lower));
        assert(q * pow10((28 - k) as nat) == (q * pow10(e)) * pow10(lower)) by (nonlinear_arith)
            requires
                pow10((28 - k) as nat) == pow10(lower) * pow10(e),
        ;
        assert((q * pow10(e)) * pow10(lower) <= m * pow10(lower) < (q * pow10(e) + pow10(e)) * pow10(lower))
            by (nonlinear_arith)
            requires
                q * pow10(e) <= m < q * pow10(e) + pow10(e),
                pow10(lower) >= 1,
        ;
        assert((q * pow10(e) + pow10(e)) * pow10(lower) == q * pow10((28 - k) as nat) + pow10((28 - k) as nat))
            by (nonlinear_arith)
            requires
                pow10((28 - k) as nat) == pow10(lower) * pow10(e),
        ;
        assert(q * pow10((28 - k) as nat) >= 0) by (nonlinear_arith)
            requires
                q >= 0,
                pow10((28 - k) as nat) >= 1,
        ;
    }
}

/// What rust_decimal's `checked_add` gives for two figures.
pub uninterp spec fn decimal_checked_add(a: (i128, u32), b: (i128, u32)) -> Option<(i128, u32)>;

pub open spec fn checked_view(r: Option<Dec>) -> Option<(i128, u32)> {
    match r {
        Some(d) => Some(d.pair()),
        None => None,
    }
}

/// rust_decimal's `a.checked_add(b)`: `a + b`, or nothing where `+` would
/// overflow. Trusted: the result depends on the two figures alone, and is
/// a valid figure when present.
#[verifier::external_body]
pub(crate) fn dec_checked_add(a: Dec, b: Dec) -> (r: Option<Dec>)
    requires
        a.valid(),
        b.valid(),
    ensures
        checked_view(r) == decimal_checked_add(a.pair(), b.pair()),
        r matches Some(d) ==> d.valid(),
{
    Decimal::from_i128_with_scale(a.mantissa, a.scale).checked_add(Decimal::from_i128_with_scale(b.mantissa, b.scale)).map(
        |s| Dec { mantissa: s.mantissa(), scale: s.scale() },
    )
}

/// What rust_decimal's `checked_mul` gives for two figures.
pub uninterp spec fn decimal_checked_mul(a: (i128, u32), b: (i128, u32)) -> Option<(i128, u32)>;

/// rust_decimal's `a.checked_mul(b)`: `a * b`, or nothing where `*` would
/// overflow. Trusted as `checked_add` is.
#[verifier::external_body]
pub(crate) fn dec_checked_mul(a: Dec, b: Dec) -> (r: Option<Dec>)
    requires
        a.valid(),
        b.valid(),
    ensures
        checked_view(r) == decimal_checked_mul(a.pair(), b.pair()),
        r matches Some(d) ==> d.valid(),
{
    Decimal::from_i128_with_scale(a.mantissa, a.scale).checked_mul(Decimal::from_i128_with_scale(b.mantissa, b.scale)).map(
        |s| Dec { mantissa: s.mantissa(), scale: s.scale() },
    )
}

/// What rust_decimal's `checked_div` gives for two figures.
pub uninterp spec fn decimal_checked_div(a: (i128, u32), b: (i128, u32)) -> Option<(i128, u32)>;

/// rust_decimal's `a.checked_div(b)`: `a / b`, or nothing where `/` would
/// panic (a zero divisor, or an overflow). Trusted as `checked_add` is.
#[verifier::external_body]
pub(crate) fn dec_checked_div(a: Dec, b: Dec) -> (r: Option<Dec>)
    requires
        a.valid(),
        b.valid(),
    ensures
        checked_view(r) == decimal_checked_div(a.pair(), b.pair()),
        r matches Some(d) ==> d.valid(),
        b.mantissa == 0 ==> r is None,
{
    Decimal::from_i128_with_scale(a.mantissa, a.scale).checked_div(Decimal::from_i128_with_scale(b.mantissa, b.scale)).map(
        |s| Dec { mantissa: s.mantissa(), scale: s.scale() },
    )
}

/// What rust_decimal's `checked_sub` gives for two figures.
pub uninterp spec fn decimal_checked_sub(a: (i128, u32), b: (i128, u32)) -> Option<(i128, u32)>;

/// rust_decimal's `a.checked_sub(b)`: `a - b`, or nothing where `-` would
/// overflow. Trusted as `checked_add` is.
#[verifier::external_body]
pub(crate) fn dec_checked_sub(a: Dec, b: Dec) -> (r: Option<Dec>)
    requires
        a.valid(),
        b.valid(),
    ensures
        checked_view(r) == decimal_checked_sub(a.pair(), b.pair()),
        r matches Some(d) ==> d.valid(),
{
    Decimal::from_i128_with_scale(a.mantissa, a.scale).checked_sub(Decimal::from_i128_with_scale(b.mantissa, b.scale)).map(
        |s| Dec { mantissa: s.mantissa(), scale: s.scale() },
    )
}

/// What rust_decimal's `checked_powi` gives for a figure and an exponent.
pub uninterp spec fn decimal_checked_powi(a: (i128, u32), exp: i64) -> Option<(i128, u32)>;

/// rust_decimal's `a.checked_powi(exp)`: `a` to the power `exp`, or
/// nothing where `powi` would overflow. Trusted as `checked_add` is.
#[verifier::external_body]
pub(crate) fn dec_checked_powi(a: Dec, exp: i64) -> (r: Option<Dec>)
    requires
        a.valid(),
    ensures
        checked_view(r) == decimal_checked_powi(a.pair(), exp),
        r matches Some(d) ==> d.valid(),
{
    MathematicalOps::checked_powi(&Decimal::from_i128_with_scale(a.mantissa, a.scale), exp).map(
        |s| Dec { mantissa: s.mantissa(), scale: s.scale() },
    )
}

/// A checked result as a figure.
pub open spec fn as_dec(p: Option<(i128, u32)>) -> Option<Dec> {
    match p {
        Some((m, e)) => Some(Dec { mantissa: m, scale: e }),
        None => None,
    }
}

pub open spec fn c_add(a: Dec, b: Dec) -> Option<Dec> {
    as_dec(decimal_checked_add(a.pair(), b.pair()))
}

pub open spec fn c_sub(a: Dec, b: Dec) -> Option<Dec> {
    as_dec(decimal_checked_sub(a.pair(), b.pair()))
}

pub open spec fn c_mul(a: Dec, b: Dec) -> Option<Dec> {
    as_dec(decimal_checked_mul(a.pair(), b.pair()))
}

pub open spec fn c_div(a: Dec, b: Dec) -> Option<Dec> {
    as_dec(decimal_checked_div(a.pair(), b.pair()))
}

pub(crate) fn add_checked(a: Dec, b: Dec) -> (r: Option<Dec>)
    requires
        a.valid(),
        b.valid(),
    ensures
        r == c_add(a, b),
        r matches Some(d) ==> d.valid(),
{
    dec_checked_add(a, b)
}

pub(crate) fn sub_checked(a: Dec, b: Dec) -> (r: Option<Dec>)
    requires
        a.valid(),
        b.valid(),
    ensures
        r == c_sub(a, b),
        r matches Some(d) ==> d.valid(),
{
    dec_checked_sub(a, b)
}

pub(crate) fn mul_checked(a: Dec, b: Dec) -> (r: Option<Dec>)
    requires
        a.valid(),
        b.valid(),
    ensures
        r == c_mul(a, b),
        r matches Some(d) ==> d.valid(),
{
    dec_checked_mul(a, b)
}

pub(crate) fn div_checked(a: Dec, b: Dec) -> (r: Option<Dec>)
    requires
        a.valid(),
        b.valid(),
    ensures
        r == c_div(a, b),
        r matches Some(d) ==> d.valid(),
{
    dec_checked_div(a, b)
}

/// The figure [`rounded`] describes.
pub open spec fn round_to(d: Dec, dp: u32) -> Dec {
    Dec { mantissa: rounded(d, dp).0 as i128, scale: rounded(d, dp).1 }
}

/// `round_dp(dp)` as a figure.
pub(crate) fn round_dp(d: Dec, dp: u32) -> (r: Dec)
    requires
        d.valid(),
        dp <= 28,
    ensures
        r == round_to(d, dp),
        r.valid(),
{
    dec_round_dp(d, dp)
}

} // verus!
