//! Performance budgets for hot paths: time a closure and fail when it
//! runs past its budget (a fifth of it in strict mode).
use vstd::prelude::*;

use std::time::{Duration, Instant};

use crate::text::{owned, push_str};

verus! {

#[verifier::external_type_specification]
#[verifier::external_body]
pub struct ExInstant(Instant);

/// A length of time as `std::time::Duration` holds it: whole seconds and
/// the nanoseconds of the second under way.
#[derive(Clone, Copy, Debug)]
pub struct Span {
    pub secs: u64,
    pub nanos: u32,
}

impl Span {
    /// The nanoseconds stay under a second.
    pub open spec fn valid(self) -> bool {
        self.nanos < 1_000_000_000
    }

    /// The whole length in nanoseconds.
    pub open spec fn total(self) -> int {
        self.secs * 1_000_000_000 + self.nanos
    }

    pub fn from_secs(secs: u64) -> (r: Span)
        ensures
            r.valid(),
            r.total() == secs * 1_000_000_000,
    {
        Span { secs, nanos: 0 }
    }

    pub fn from_millis(ms: u64) -> (r: Span)
        ensures
            r.valid(),
            r.total() == ms * 1_000_000,
    {
        Span { secs: ms / 1000, nanos: ((ms % 1000) as u32) * 1_000_000 }
    }

    pub fn from_nanos(n: u64) -> (r: Span)
        ensures
            r.valid(),
            r.total() == n,
    {
        Span { secs: n / 1_000_000_000, nanos: (n % 1_000_000_000) as u32 }
    }

    /// The whole length in nanoseconds.
    pub fn as_nanos(&self) -> (r: u128)
        ensures
            r == self.total(),
    {
        self.secs as u128 * 1_000_000_000 + self.nanos as u128
    }
}

/// The span of `n` nanoseconds.
pub open spec fn span_of(n: int) -> Span {
    Span { secs: (n / 1_000_000_000) as u64, nanos: (n % 1_000_000_000) as u32 }
}

/// The budget in force: a fifth of it (rounded down to the nanosecond, as
/// `Duration / 5` gives it) in strict mode, all of it otherwise.
pub open spec fn effective_span(budget: Span, strict: bool) -> Span {
    if strict {
        span_of(budget.total() / 5)
    } else {
        budget
    }
}

/// A fifth of a span, to the nanosecond below.
pub fn fifth(budget: Span) -> (r: Span)
    requires
        budget.valid(),
    ensures
        r == span_of(budget.total() / 5),
        r.valid(),
        r.total() == budget.total() / 5,
{
    let total: u128 = budget.secs as u128 * 1_000_000_000 + budget.nanos as u128;
    let t5 = total / 5;
    assert(t5 / 1_000_000_000 <= budget.secs) by (nonlinear_arith)
        requires
            t5 == total / 5,
            total == budget.secs * 1_000_000_000 + budget.nanos,
            budget.nanos < 1_000_000_000,
    ;
    let secs = (t5 / 1_000_000_000) as u64;
    let nanos = (t5 % 1_000_000_000) as u32;
    Span { secs, nanos }
}

/// `Instant::now()`. Nothing is stated of the reading.
#[verifier::external_body]
fn now() -> Instant {
    Instant::now()
}

/// `Instant::elapsed`, as seconds and the nanoseconds of the second under
/// way (`Duration::as_secs`, `Duration::subsec_nanos`). Only that the
/// nanoseconds stay under a second is stated (so std's documentation of
/// `subsec_nanos` says); the reading itself rests on the clock.
#[verifier::external_body]
fn elapsed_span(start: &Instant) -> (r: Span)
    ensures
        r.valid(),
{
    let d = start.elapsed();
    Span { secs: d.as_secs(), nanos: d.subsec_nanos() }
}

/// What `format!("{:?}", Duration::new(secs, nanos))` gives.
pub uninterp spec fn duration_debug(secs: u64, nanos: u32) -> Seq<char>;

/// `format!("{:?}", Duration::new(secs, nanos))`: the `Debug` rendering of
/// a duration. Trusted to depend on the two numbers alone; the text itself
/// is not stated. `Duration::new` panics only when the nanoseconds carry
/// past the largest count of seconds, which `requires` rules out.
#[verifier::external_body]
fn span_debug(secs: u64, nanos: u32) -> (r: String)
    requires
        nanos < 1_000_000_000,
    ensures
        r@ == duration_debug(secs, nanos),
{
    format!("{:?}", Duration::new(secs, nanos))
}

pub open spec fn span_text(s: Span) -> Seq<char> {
    duration_debug(s.secs, s.nanos)
}

/// The message of a budget overrun.
pub open spec fn overrun_text(label: Seq<char>, took: Seq<char>, budget: Seq<char>) -> Seq<char> {
    "perf budget exceeded: "@ + label + " took "@ + took + ", budget was "@ + budget
}

/// The verdict on a timed run: `Ok` with the value and its time when the
/// run took less than the budget, otherwise `Err` with the overrun
/// message, which quotes the label and the two spans as `Duration`
/// renders them.
pub fn budget_verdict<R>(label: &str, result: R, took: Span, budget: Span) -> (r: Result<(R, Span), String>)
    requires
        took.valid(),
        budget.valid(),
    ensures
        took.total() < budget.total() ==> r == Ok::<(R, Span), String>((result, took)),
        took.total() >= budget.total() ==> (r matches Err(m) && m@ == overrun_text(
            label@,
            span_text(took),
            span_text(budget),
        )),
{
    if took.as_nanos() < budget.as_nanos() {
        Ok((result, took))
    } else {
        let took_text = span_debug(took.secs, took.nanos);
        let budget_text = span_debug(budget.secs, budget.nanos);
        let mut m = owned("perf budget exceeded: ");
        push_str(&mut m, label);
        push_str(&mut m, " took ");
        push_str(&mut m, took_text.as_str());
        push_str(&mut m, ", budget was ");
        push_str(&mut m, budget_text.as_str());
        Err(m)
    }
}

/// Runs `f`, timing it, and holds the run to the budget in force (a fifth
/// of `budget` when `strict`): `Ok` with `f`'s value and the time taken
/// when the run took less, `Err` with the overrun message otherwise. Which
/// of the two comes back rests on the clock.
pub fn within_budget<F: FnOnce() -> R, R>(label: &str, budget: Span, strict: bool, f: F) -> (r: Result<(R, Span), String>)
    requires
        budget.valid(),
        f.requires(()),
    ensures
        r matches Ok((v, took)) ==> f.ensures((), v) && took.valid() && took.total() < effective_span(
            budget,
            strict,
        ).total(),
        r matches Err(m) ==> exists|took: Span|
            #![trigger span_text(took)]
            took.valid() && took.total() >= effective_span(budget, strict).total() && m@ == overrun_text(
                label@,
                span_text(took),
                span_text(effective_span(budget, strict)),
            ),
{
    let start = now();
    let result = f();
    let took = elapsed_span(&start);
    let effective = if strict {
        fifth(budget)
    } else {
        budget
    };
    budget_verdict(label, result, took, effective)
}

} // verus!
