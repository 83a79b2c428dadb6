//! Loan amortization: the monthly schedule of a loan's payments, each split
//! into interest (the balance times the monthly rate, to the cent) and
//! principal, until the balance is paid off or fifty years have passed.
//! Without a given payment, the standard EMI is derived from the balance,
//! the rate and the term.
use vstd::prelude::*;

use crate::dates::CalendarDate;
use crate::decimal::{
    add_checked, as_dec, c_add, c_div, c_mul, c_sub, dec_checked_powi, dec_lt, dec_round_dp, decimal_checked_powi,
    div_checked, mul_checked, pow10, rounded, sub_checked, Dec,
};
use crate::text::owned;

verus! {

pub open spec fn leap_year(y: int) -> bool {
    (y % 4 == 0 && y % 100 != 0) || y % 400 == 0
}

pub open spec fn month_days(y: int, m: int) -> int {
    if m == 1 || m == 3 || m == 5 || m == 7 || m == 8 || m == 10 || m == 12 {
        31
    } else if m == 4 || m == 6 || m == 9 || m == 11 {
        30
    } else if leap_year(y) {
        29
    } else {
        28
    }
}

/// The years chrono can represent.
pub open spec fn min_year() -> int {
    -262143
}

pub open spec fn max_year() -> int {
    262142
}

/// A real calendar day that chrono can represent.
pub open spec fn valid_date(d: CalendarDate) -> bool {
    &&& 1 <= d.month <= 12
    &&& 1 <= d.day <= month_days(d.year as int, d.month as int)
    &&& min_year() <= d.year <= max_year()
}

/// The same day of the next month, or that month's last day when it is
/// shorter.
pub open spec fn next_month(d: CalendarDate) -> CalendarDate {
    let (y, m) = if d.month == 12 {
        (d.year + 1, 1int)
    } else {
        (d.year as int, d.month + 1)
    };
    let last = month_days(y, m);
    CalendarDate { year: y as i32, month: m as u32, day: (if d.day <= last { d.day as int } else { last }) as u32 }
}

/// Whether `year` is a leap year in the Gregorian calendar.
pub fn is_leap_year(year: i32) -> (r: bool)
    ensures
        r == leap_year(year as int),
{
    let a: u64 = if year < 0 {
        (-(year as i64)) as u64
    } else {
        year as u64
    };
    proof {
        lemma_divides_abs(year as int, a as int, 4);
        lemma_divides_abs(year as int, a as int, 100);
        lemma_divides_abs(year as int, a as int, 400);
    }
    (a % 4 == 0 && a % 100 != 0) || a % 400 == 0
}

/// A number and its magnitude have the same divisors.
proof fn lemma_divides_abs(y: int, a: int, k: int)
    requires
        a == if y < 0 {
            -y
        } else {
            y
        },
        k > 0,
    ensures
        (a % k == 0) == (y % k == 0),
{
    if y < 0 {
        vstd::arithmetic::div_mod::lemma_fundamental_div_mod(a, k);
        vstd::arithmetic::div_mod::lemma_fundamental_div_mod(y, k);
        if a % k == 0 {
            let q = a / k;
            assert(y == (-q) * k + 0) by (nonlinear_arith)
                requires
                    a == k * q + 0,
                    y == -a,
            ;
            vstd::arithmetic::div_mod::lemma_fundamental_div_mod_converse_mod(y, k, -q, 0);
        }
        if y % k == 0 {
            let q = y / k;
            assert(a == (-q) * k + 0) by (nonlinear_arith)
                requires
                    y == k * q + 0,
                    a == -y,
            ;
            vstd::arithmetic::div_mod::lemma_fundamental_div_mod_converse_mod(a, k, -q, 0);
        }
    }
}

/// The number of days of `month` in `year`.
pub fn days_in_month(year: i32, month: u32) -> (r: u32)
    requires
        1 <= month <= 12,
    ensures
        r == month_days(year as int, month as int),
{
    if month == 1 || month == 3 || month == 5 || month == 7 || month == 8 || month == 10 || month == 12 {
        31
    } else if month == 4 || month == 6 || month == 9 || month == 11 {
        30
    } else if is_leap_year(year) {
        29
    } else {
        28
    }
}

/// One calendar month later, the day clamped to the month's length
/// (January 31 gives February 28 or 29).
pub fn add_one_month(d: CalendarDate) -> (r: CalendarDate)
    requires
        valid_date(d),
        d.year < max_year() || d.month < 12,
    ensures
        r == next_month(d),
        valid_date(r),
{
    let (y, m) = if d.month == 12 {
        (d.year + 1, 1u32)
    } else {
        (d.year, d.month + 1)
    };
    let last = days_in_month(y, m);
    let day = if d.day <= last {
        d.day
    } else {
        last
    };
    CalendarDate { year: y, month: m, day }
}

/// The longest schedule: fifty years of months.
pub open spec fn max_months() -> int {
    600
}

/// What a schedule starts from.
pub struct AmortizationInputs {
    /// The outstanding principal.
    pub current_balance: Dec,
    /// The yearly rate as a fraction (0.0625 for 6.25%).
    pub annual_rate: Dec,
    /// The payment made each month, when known.
    pub monthly_payment: Option<Dec>,
    /// The number of payments left, when known.
    pub remaining_months: Option<u32>,
    /// The day of the first payment.
    pub start_date: CalendarDate,
    pub currency: Option<String>,
}

/// One month's payment.
pub struct Installment {
    /// 1 for the first payment.
    pub period: u32,
    pub due_date: CalendarDate,
    pub payment: Dec,
    pub interest: Dec,
    pub principal: Dec,
    pub balance_after: Dec,
}

/// The schedule and its totals.
pub struct AmortizationReport {
    pub monthly_payment: Dec,
    pub total_paid: Dec,
    pub total_interest: Dec,
    pub total_principal: Dec,
    pub payoff_date: CalendarDate,
    pub schedule: Vec<Installment>,
    pub currency: Option<String>,
    pub notes: Vec<String>,
}

pub type InstView = (u32, CalendarDate, Dec, Dec, Dec, Dec);

pub open spec fn inst_views(v: Seq<Installment>) -> Seq<InstView> {
    v.map_values(|i: Installment| (i.period, i.due_date, i.payment, i.interest, i.principal, i.balance_after))
}

pub open spec fn round2(d: Dec) -> Dec {
    Dec { mantissa: rounded(d, 2).0 as i128, scale: rounded(d, 2).1 }
}

pub open spec fn zero() -> Dec {
    Dec { mantissa: 0, scale: 0 }
}

pub open spec fn one() -> Dec {
    Dec { mantissa: 1, scale: 0 }
}

/// `max(d, 0)`.
pub open spec fn floor_zero(d: Dec) -> Dec {
    if d.units() > 0 {
        d
    } else {
        zero()
    }
}

pub ghost struct Period {
    pub interest: Dec,
    pub principal: Dec,
    pub payment: Dec,
    pub balance_after: Dec,
}

/// One month: interest is the balance times the monthly rate, to the cent
/// and not below zero; the rest of the payment goes to principal, except
/// that a last payment pays just the balance and its interest.
pub open spec fn period_step(balance: Dec, rate: Dec, payment: Dec) -> Option<Period> {
    match c_mul(balance, rate) {
        None => None,
        Some(x) => {
            let interest = floor_zero(round2(x));
            match c_sub(payment, interest) {
                None => None,
                Some(y) => {
                    let p0 = round2(y);
                    let last = p0.units() >= balance.units();
                    let principal = if last {
                        balance
                    } else {
                        p0
                    };
                    let paid = if last {
                        match c_add(principal, interest) {
                            Some(t) => Some(round2(t)),
                            None => None,
                        }
                    } else {
                        Some(payment)
                    };
                    match paid {
                        None => None,
                        Some(paid) => match c_sub(balance, principal) {
                            None => None,
                            Some(z) => Some(
                                Period {
                                    interest,
                                    principal,
                                    payment: paid,
                                    balance_after: floor_zero(round2(z)),
                                },
                            ),
                        },
                    }
                },
            }
        },
    }
}

pub ghost struct Walk {
    pub balance: Dec,
    pub due: CalendarDate,
    pub rows: Seq<InstView>,
    pub interest: Dec,
    pub principal: Dec,
    pub paid: Dec,
    pub done: bool,
}

/// The schedule after `k` months (fewer once the balance is paid off);
/// nothing when the arithmetic overflows.
pub open spec fn walk(balance0: Dec, rate: Dec, payment: Dec, start: CalendarDate, k: nat) -> Option<Walk>
    decreases k,
{
    if k == 0 {
        Some(
            Walk {
                balance: balance0,
                due: start,
                rows: Seq::empty(),
                interest: zero(),
                principal: zero(),
                paid: zero(),
                done: balance0.units() <= 0,
            },
        )
    } else {
        match walk(balance0, rate, payment, start, (k - 1) as nat) {
            None => None,
            Some(w) => if w.done {
                Some(w)
            } else {
                match period_step(w.balance, rate, payment) {
                    None => None,
                    Some(p) => match (c_add(w.interest, p.interest), c_add(w.principal, p.principal), c_add(w.paid, p.payment)) {
                        (Some(ti), Some(tp), Some(tpaid)) => Some(
                            Walk {
                                balance: p.balance_after,
                                due: next_month(w.due),
                                rows: w.rows.push((k as u32, w.due, p.payment, p.interest, p.principal, p.balance_after)),
                                interest: ti,
                                principal: tp,
                                paid: tpaid,
                                done: p.balance_after.units() <= 0,
                            },
                        ),
                        _ => None,
                    },
                }
            },
        }
    }
}

pub open spec fn note_zero_term() -> Seq<char> {
    "Term of zero months — assumed lump-sum payoff today."@
}

pub open spec fn note_degenerate() -> Seq<char> {
    "Degenerate rate/term combination — used flat amortization."@
}

pub open spec fn note_default() -> Seq<char> {
    "Schedule assumes the current rate and payment stay fixed for the life of the loan. Variable-rate, prepayment penalties, and escrow are out of scope."@
}

pub open spec fn note_capped() -> Seq<char> {
    "Payment is too small to retire the balance within 600 months — schedule capped. Increase the monthly payment or extend the term."@
}

/// The level payment that retires `principal` over `term` months at
/// monthly rate `rate` (`P·r·(1+r)^n / ((1+r)^n − 1)`, to the cent), or a
/// flat `principal / term` when the rate is not positive or the formula
/// degenerates, or the whole principal for a zero term; with the notes
/// those cases add.
pub open spec fn emi(principal: Dec, rate: Dec, term: u32) -> Option<(Dec, Seq<Seq<char>>)> {
    if term == 0 {
        Some((principal, seq![note_zero_term()]))
    } else if rate.units() <= 0 {
        match c_div(principal, Dec { mantissa: term as i128, scale: 0 }) {
            Some(q) => Some((round2(q), Seq::empty())),
            None => None,
        }
    } else {
        match c_add(one(), rate) {
            None => None,
            Some(one_plus) => match as_dec(decimal_checked_powi(one_plus.pair(), term as i64)) {
                None => None,
                Some(pow) => match c_mul(principal, rate) {
                    None => None,
                    Some(pr) => match c_mul(pr, pow) {
                        None => None,
                        Some(num) => match c_sub(pow, one()) {
                            None => None,
                            Some(den) => if den.units() == 0 {
                                match c_div(principal, Dec { mantissa: term as i128, scale: 0 }) {
                                    Some(q) => Some((round2(q), seq![note_degenerate()])),
                                    None => None,
                                }
                            } else {
                                match c_div(num, den) {
                                    Some(q) => Some((round2(q), Seq::empty())),
                                    None => None,
                                }
                            },
                        },
                    },
                },
            },
        }
    }
}

pub ghost struct ReportView {
    pub monthly_payment: Dec,
    pub total_paid: Dec,
    pub total_interest: Dec,
    pub total_principal: Dec,
    pub payoff_date: CalendarDate,
    pub schedule: Seq<InstView>,
    pub notes: Seq<Seq<char>>,
}

pub open spec fn strings(v: Seq<String>) -> Seq<Seq<char>> {
    v.map_values(|s: String| s@)
}

impl AmortizationReport {
    pub open spec fn view(&self) -> ReportView {
        ReportView {
            monthly_payment: self.monthly_payment,
            total_paid: self.total_paid,
            total_interest: self.total_interest,
            total_principal: self.total_principal,
            payoff_date: self.payoff_date,
            schedule: inst_views(self.schedule@),
            notes: strings(self.notes@),
        }
    }
}

/// The term the schedule assumes: the months left (360 when unknown),
/// at most fifty years.
pub open spec fn term_of(remaining: Option<u32>) -> u32 {
    let t = match remaining {
        Some(m) => m,
        None => 360u32,
    };
    if t < 600 {
        t
    } else {
        600u32
    }
}

/// The whole schedule; nothing when the arithmetic overflows.
pub open spec fn schedule_of(
    balance: Dec,
    annual_rate: Dec,
    monthly_payment: Option<Dec>,
    remaining: Option<u32>,
    start: CalendarDate,
) -> Option<ReportView> {
    if balance.units() <= 0 {
        Some(
            ReportView {
                monthly_payment: zero(),
                total_paid: zero(),
                total_interest: zero(),
                total_principal: zero(),
                payoff_date: start,
                schedule: Seq::empty(),
                notes: seq![note_default()],
            },
        )
    } else {
        match c_div(annual_rate, Dec { mantissa: 12, scale: 0 }) {
            None => None,
            Some(rate) => {
                let chosen = match monthly_payment {
                    Some(p) => if p.units() > 0 {
                        Some((p, Seq::<Seq<char>>::empty()))
                    } else {
                        emi(balance, rate, term_of(remaining))
                    },
                    None => emi(balance, rate, term_of(remaining)),
                };
                match chosen {
                    None => None,
                    Some((payment, emi_notes)) => match walk(balance, rate, payment, start, 600) {
                        None => None,
                        Some(w) => Some(
                            ReportView {
                                monthly_payment: payment,
                                total_paid: round2(w.paid),
                                total_interest: round2(w.interest),
                                total_principal: round2(w.principal),
                                payoff_date: if w.rows.len() > 0 {
                                    w.rows.last().1
                                } else {
                                    start
                                },
                                schedule: w.rows,
                                notes: seq![note_default()] + emi_notes + if w.balance.units() > 0 {
                                    seq![note_capped()]
                                } else {
                                    Seq::empty()
                                },
                            },
                        ),
                    },
                }
            },
        }
    }
}

fn cents(d: Dec) -> (r: Dec)
    requires
        d.valid(),
    ensures
        r == round2(d),
        r.valid(),
{
    dec_round_dp(d, 2)
}

fn at_least_zero(d: Dec) -> (r: Dec)
    requires
        d.valid(),
    ensures
        r == floor_zero(d),
        r.valid(),
{
    let z = Dec::zero();
    if dec_lt(z, d) {
        d
    } else {
        z
    }
}

fn period_exec(balance: Dec, rate: Dec, payment: Dec) -> (r: Option<(Dec, Dec, Dec, Dec)>)
    requires
        balance.valid(),
        rate.valid(),
        payment.valid(),
    ensures
        match period_step(balance, rate, payment) {
            Some(p) => r == Some((p.interest, p.principal, p.payment, p.balance_after)),
            None => r is None,
        },
        r matches Some(t) ==> t.0.valid() && t.1.valid() && t.2.valid() && t.3.valid(),
{
    let x = match mul_checked(balance, rate) {
        Some(x) => x,
        None => return None,
    };
    let interest = at_least_zero(cents(x));
    let y = match sub_checked(payment, interest) {
        Some(y) => y,
        None => return None,
    };
    let p0 = cents(y);
    let last = !dec_lt(p0, balance);
    let principal = if last {
        balance
    } else {
        p0
    };
    let paid = if last {
        match add_checked(principal, interest) {
            Some(t) => cents(t),
            None => return None,
        }
    } else {
        payment
    };
    let z = match sub_checked(balance, principal) {
        Some(z) => z,
        None => return None,
    };
    Some((interest, principal, paid, at_least_zero(cents(z))))
}

/// The level payment (see [`emi`]), adding its notes to `notes`; nothing
/// when the arithmetic overflows.
fn derive_emi(principal: Dec, rate: Dec, term: u32, notes: &mut Vec<String>) -> (r: Option<Dec>)
    requires
        principal.valid(),
        rate.valid(),
    ensures
        match emi(principal, rate, term) {
            Some((p, ns)) => r == Some(p) && strings(final(notes)@) == strings(old(notes)@) + ns,
            None => r is None,
        },
        r matches Some(d) ==> d.valid(),
{
    let ghost before = strings(notes@);
    let zero = Dec::zero();
    let months = Dec { mantissa: term as i128, scale: 0 };
    if term == 0 {
        notes.push(owned("Term of zero months — assumed lump-sum payoff today."));
        assert(strings(notes@) =~= before + seq![note_zero_term()]);
        return Some(principal);
    }
    if !dec_lt(zero, rate) {
        let q = match div_checked(principal, months) {
            Some(q) => q,
            None => return None,
        };
        assert(strings(notes@) =~= before + Seq::<Seq<char>>::empty());
        return Some(cents(q));
    }
    let one_fig = Dec { mantissa: 1, scale: 0 };
    let one_plus = match add_checked(one_fig, rate) {
        Some(v) => v,
        None => return None,
    };
    let pow = match dec_checked_powi(one_plus, term as i64) {
        Some(v) => v,
        None => return None,
    };
    let pr = match mul_checked(principal, rate) {
        Some(v) => v,
        None => return None,
    };
    let num = match mul_checked(pr, pow) {
        Some(v) => v,
        None => return None,
    };
    let den = match sub_checked(pow, one_fig) {
        Some(v) => v,
        None => return None,
    };
    if !dec_lt(den, zero) && !dec_lt(zero, den) {
        let q = match div_checked(principal, months) {
            Some(q) => q,
            None => return None,
        };
        notes.push(owned("Degenerate rate/term combination — used flat amortization."));
        assert(strings(notes@) =~= before + seq![note_degenerate()]);
        return Some(cents(q));
    }
    let q = match div_checked(num, den) {
        Some(q) => q,
        None => return None,
    };
    assert(strings(notes@) =~= before + Seq::<Seq<char>>::empty());
    Some(cents(q))
}

/// A month's position in the calendar, counted in months.
pub open spec fn month_index(d: CalendarDate) -> int {
    d.year * 12 + d.month
}

/// The schedule's dates stay within chrono's years: fifty years of months
/// after the start.
pub open spec fn dates_in_range(start: CalendarDate) -> bool {
    valid_date(start) && month_index(start) + 600 <= max_year() * 12 + 12
}

proof fn lemma_walk_none_stays(balance0: Dec, rate: Dec, payment: Dec, start: CalendarDate, j: nat, k: nat)
    requires
        j <= k,
        walk(balance0, rate, payment, start, j) is None,
    ensures
        walk(balance0, rate, payment, start, k) is None,
    decreases k,
{
    if k > j {
        lemma_walk_none_stays(balance0, rate, payment, start, j, (k - 1) as nat);
    }
}

proof fn lemma_walk_done_stays(balance0: Dec, rate: Dec, payment: Dec, start: CalendarDate, j: nat, k: nat)
    requires
        j <= k,
        walk(balance0, rate, payment, start, j) matches Some(w) && w.done,
    ensures
        walk(balance0, rate, payment, start, k) == walk(balance0, rate, payment, start, j),
    decreases k,
{
    if k > j {
        lemma_walk_done_stays(balance0, rate, payment, start, j, (k - 1) as nat);
    }
}

/// The month-by-month schedule from `balance0`; nothing when the
/// arithmetic overflows.
fn walk_exec(balance0: Dec, rate: Dec, payment: Dec, start: CalendarDate) -> (r: Option<(Vec<Installment>, Dec, Dec, Dec, Dec)>)
    requires
        balance0.valid(),
        rate.valid(),
        payment.valid(),
        dates_in_range(start),
    ensures
        match walk(balance0, rate, payment, start, 600) {
            Some(w) => r matches Some(t) && inst_views(t.0@) == w.rows && t.1 == w.balance && t.2 == w.interest && t.3
                == w.principal && t.4 == w.paid,
            None => r is None,
        },
        r matches Some(t) ==> t.1.valid() && t.2.valid() && t.3.valid() && t.4.valid(),
{
    let mut balance = balance0;
    let mut due = start;
    let mut rows: Vec<Installment> = Vec::new();
    let mut interest_total = Dec::zero();
    let mut principal_total = Dec::zero();
    let mut paid_total = Dec::zero();
    let mut period: u32 = 1;
    let zero = Dec::zero();
    let mut done = !dec_lt(zero, balance);
    assert(inst_views(rows@) =~= Seq::<InstView>::empty());
    while period <= 600 && !done
        invariant
            1 <= period <= 601,
            balance0.valid(),
            rate.valid(),
            payment.valid(),
            dates_in_range(start),
            zero == crate::amortization::zero(),
            walk(balance0, rate, payment, start, (period - 1) as nat) == Some(
                Walk {
                    balance,
                    due,
                    rows: inst_views(rows@),
                    interest: interest_total,
                    principal: principal_total,
                    paid: paid_total,
                    done,
                },
            ),
            balance.valid() && interest_total.valid() && principal_total.valid() && paid_total.valid(),
            valid_date(due),
            month_index(due) == month_index(start) + period - 1,
        decreases 601 - period,
    {
        let (interest, principal, paid, after) = match period_exec(balance, rate, payment) {
            Some(t) => t,
            None => {
                proof {
                    lemma_walk_none_stays(balance0, rate, payment, start, period as nat, 600);
                }
                return None;
            },
        };
        let ti = add_checked(interest_total, interest);
        let tp = add_checked(principal_total, principal);
        let tpaid = add_checked(paid_total, paid);
        if ti.is_none() || tp.is_none() || tpaid.is_none() {
            proof {
                lemma_walk_none_stays(balance0, rate, payment, start, period as nat, 600);
            }
            return None;
        }
        let ghost before = inst_views(rows@);
        rows.push(Installment { period, due_date: due, payment: paid, interest, principal, balance_after: after });
        assert(inst_views(rows@) =~= before.push((period, due, paid, interest, principal, after)));
        interest_total = ti.unwrap();
        principal_total = tp.unwrap();
        paid_total = tpaid.unwrap();
        balance = after;
        proof {
            assert(due.year < max_year() || due.month < 12) by {
                assert(month_index(due) <= max_year() * 12 + 12 - 1);
            }
        }
        due = add_one_month(due);
        done = !dec_lt(zero, balance);
        period = period + 1;
    }
    proof {
        if done {
            lemma_walk_done_stays(balance0, rate, payment, start, (period - 1) as nat, 600);
        }
    }
    Some((rows, balance, interest_total, principal_total, paid_total))
}

pub open spec fn inputs_schedule(inputs: AmortizationInputs) -> Option<ReportView> {
    schedule_of(
        inputs.current_balance,
        inputs.annual_rate,
        inputs.monthly_payment,
        inputs.remaining_months,
        inputs.start_date,
    )
}

/// The figures are valid and the dates stay in chrono's range.
pub open spec fn inputs_valid(inputs: AmortizationInputs) -> bool {
    &&& inputs.current_balance.valid()
    &&& inputs.annual_rate.valid()
    &&& inputs.monthly_payment matches Some(p) ==> p.valid()
    &&& dates_in_range(inputs.start_date)
}

fn schedule_checked(inputs: &AmortizationInputs) -> (r: Option<AmortizationReport>)
    requires
        inputs_valid(*inputs),
    ensures
        match inputs_schedule(*inputs) {
            Some(v) => r matches Some(x) && x@ == v && x.currency == inputs.currency,
            None => r is None,
        },
{
    let mut notes: Vec<String> = Vec::new();
    notes.push(
        owned(
            "Schedule assumes the current rate and payment stay fixed for the life of the loan. Variable-rate, prepayment penalties, and escrow are out of scope.",
        ),
    );
    let ghost n0 = strings(notes@);
    assert(n0 =~= seq![note_default()]);
    let zero = Dec::zero();
    let balance = inputs.current_balance;
    if !dec_lt(zero, balance) {
        let r = AmortizationReport {
            monthly_payment: zero,
            total_paid: zero,
            total_interest: zero,
            total_principal: zero,
            payoff_date: inputs.start_date,
            schedule: Vec::new(),
            currency: inputs.currency.clone(),
            notes,
        };
        assert(inst_views(r.schedule@) =~= Seq::<InstView>::empty());
        return Some(r);
    }
    let twelve = Dec { mantissa: 12, scale: 0 };
    let rate = match div_checked(inputs.annual_rate, twelve) {
        Some(r) => r,
        None => return None,
    };
    let remaining: u32 = match inputs.remaining_months {
        Some(m) => m,
        None => 360,
    };
    let term: u32 = if remaining < 600 {
        remaining
    } else {
        600
    };
    let given = match inputs.monthly_payment {
        Some(p) => if dec_lt(zero, p) {
            Some(p)
        } else {
            None
        },
        None => None,
    };
    let payment = match given {
        Some(p) => p,
        None => match derive_emi(balance, rate, term, &mut notes) {
            Some(p) => p,
            None => return None,
        },
    };
    let (rows, left, interest, principal, paid) = match walk_exec(balance, rate, payment, inputs.start_date) {
        Some(t) => t,
        None => return None,
    };
    let ghost before_cap = strings(notes@);
    if dec_lt(zero, left) {
        notes.push(
            owned(
                "Payment is too small to retire the balance within 600 months — schedule capped. Increase the monthly payment or extend the term.",
            ),
        );
        assert(strings(notes@) =~= before_cap + seq![note_capped()]);
    } else {
        assert(strings(notes@) =~= before_cap + Seq::<Seq<char>>::empty());
    }
    let payoff_date = if rows.len() > 0 {
        rows[rows.len() - 1].due_date
    } else {
        inputs.start_date
    };
    proof {
        if rows@.len() > 0 {
            assert(inst_views(rows@).last().1 == rows@.last().due_date);
        }
    }
    Some(
        AmortizationReport {
            monthly_payment: payment,
            total_paid: cents(paid),
            total_interest: cents(interest),
            total_principal: cents(principal),
            payoff_date,
            schedule: rows,
            currency: inputs.currency.clone(),
            notes,
        },
    )
}

/// Builds the schedule: an empty one when nothing is owed; otherwise month
/// by month from the start date (see [`schedule_of`]), with the given
/// payment or the derived EMI, until the balance reaches zero or fifty
/// years have passed (then a note says the schedule was capped), with the
/// totals to the cent.
pub fn build_schedule(inputs: AmortizationInputs) -> (r: AmortizationReport)
    requires
        inputs_valid(inputs),
        inputs_schedule(inputs) is Some,
    ensures
        Some(r@) == inputs_schedule(inputs),
        r.currency == inputs.currency,
{
    schedule_checked(&inputs).unwrap()
}

/// [`build_schedule`] where the arithmetic stays in range; nothing where it
/// would overflow.
pub fn try_build_schedule(inputs: AmortizationInputs) -> (r: Option<AmortizationReport>)
    requires
        inputs_valid(inputs),
    ensures
        match inputs_schedule(inputs) {
            Some(v) => r matches Some(x) && x@ == v && x.currency == inputs.currency,
            None => r is None,
        },
{
    if schedule_checked(&inputs).is_some() {
        Some(build_schedule(inputs))
    } else {
        None
    }
}

/// The shape of every schedule: periods numbered from 1, the first due on
/// the start date and each later one a calendar month after the previous,
/// no balance below zero, at most one row per month walked, and a schedule
/// that ends before the cap ends at a zero balance.
pub proof fn lemma_schedule_shape(balance0: Dec, rate: Dec, payment: Dec, start: CalendarDate, k: nat)
    requires
        k <= 600,
        walk(balance0, rate, payment, start, k) is Some,
    ensures
        ({
            let w = walk(balance0, rate, payment, start, k).unwrap();
            &&& w.rows.len() <= k
            &&& forall|i: int| 0 <= i < w.rows.len() ==> (#[trigger] w.rows[i]).0 == i + 1
            &&& forall|i: int| 0 <= i < w.rows.len() ==> (#[trigger] w.rows[i]).5.units() >= 0
            &&& w.rows.len() > 0 ==> w.rows[0].1 == start
            &&& forall|i: int| 0 <= i < w.rows.len() - 1 ==> #[trigger] w.rows[i + 1].1 == next_month(w.rows[i].1)
            &&& w.rows.len() > 0 ==> w.due == next_month(w.rows.last().1)
            &&& w.rows.len() == 0 ==> w.due == start
            &&& w.rows.len() > 0 ==> w.balance == w.rows.last().5
            &&& w.rows.len() == 0 ==> w.balance == balance0
            &&& w.done ==> w.balance.units() <= 0
            &&& w.done && w.rows.len() > 0 ==> w.rows.last().5 == zero()
            &&& !w.done ==> w.rows.len() == k
        }),
    decreases k,
{
    if k > 0 {
        lemma_schedule_shape(balance0, rate, payment, start, (k - 1) as nat);
        let prev = walk(balance0, rate, payment, start, (k - 1) as nat).unwrap();
        let w = walk(balance0, rate, payment, start, k).unwrap();
        if !prev.done {
            let p = period_step(prev.balance, rate, payment).unwrap();
            assert(w.rows == prev.rows.push((k as u32, prev.due, p.payment, p.interest, p.principal, p.balance_after)));
            assert(prev.rows.len() == k - 1);
            assert(zero().units() == 0) by {
                assert(0 * pow10(28) == 0) by (nonlinear_arith);
            }
            assert(p.balance_after.units() >= 0);
            assert forall|i: int| 0 <= i < w.rows.len() implies (#[trigger] w.rows[i]).0 == i + 1 by {
                if i < prev.rows.len() {
                    assert(w.rows[i] == prev.rows[i]);
                }
            }
            assert forall|i: int| 0 <= i < w.rows.len() implies (#[trigger] w.rows[i]).5.units() >= 0 by {
                if i < prev.rows.len() {
                    assert(w.rows[i] == prev.rows[i]);
                }
            }
            assert forall|i: int| 0 <= i < w.rows.len() - 1 implies #[trigger] w.rows[i + 1].1 == next_month(
                w.rows[i].1,
            ) by {
                if i + 1 < prev.rows.len() {
                    assert(w.rows[i] == prev.rows[i]);
                    assert(w.rows[i + 1] == prev.rows[i + 1]);
                } else {
                    assert(w.rows[i] == prev.rows[i]);
                }
            }
        }
    }
}

/// The running (checked) sum of one column of a schedule, row by row;
/// nothing when a step overflows.
pub open spec fn column_total(rows: Seq<InstView>, col: spec_fn(InstView) -> Dec) -> Option<Dec>
    decreases rows.len(),
{
    if rows.len() == 0 {
        Some(zero())
    } else {
        match column_total(rows.drop_last(), col) {
            Some(t) => c_add(t, col(rows.last())),
            None => None,
        }
    }
}

/// The totals are the sums of the schedule's own columns: what is paid is
/// the sum of the installments' payments, the interest the sum of their
/// interest, the principal the sum of their principal.
pub proof fn lemma_totals_sum_the_rows(balance0: Dec, rate: Dec, payment: Dec, start: CalendarDate, k: nat)
    requires
        walk(balance0, rate, payment, start, k) is Some,
    ensures
        ({
            let w = walk(balance0, rate, payment, start, k).unwrap();
            &&& column_total(w.rows, |r: InstView| r.2) == Some(w.paid)
            &&& column_total(w.rows, |r: InstView| r.3) == Some(w.interest)
            &&& column_total(w.rows, |r: InstView| r.4) == Some(w.principal)
        }),
    decreases k,
{
    if k > 0 {
        lemma_totals_sum_the_rows(balance0, rate, payment, start, (k - 1) as nat);
        let prev = walk(balance0, rate, payment, start, (k - 1) as nat).unwrap();
        let w = walk(balance0, rate, payment, start, k).unwrap();
        if !prev.done {
            let p = period_step(prev.balance, rate, payment).unwrap();
            let row = (k as u32, prev.due, p.payment, p.interest, p.principal, p.balance_after);
            assert(w.rows == prev.rows.push(row));
            assert(w.rows.drop_last() =~= prev.rows);
        }
    }
}

} // verus!
