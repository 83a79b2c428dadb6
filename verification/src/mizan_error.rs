//! The structured error every user-facing failure is reported with: what
//! failed, why, whether the user's data is safe, what to do next, whether a
//! retry helps, and a stable code support can grep.
use vstd::prelude::*;

use crate::text::owned;

verus! {

/// Severity buckets the UI colour-codes toasts and banners by.
#[derive(Debug, Clone, Copy, PartialEq, Eq, Structural)]
pub enum MizanErrorSeverity {
    /// Failed, system unaffected; a retry is usually safe.
    Warning,
    /// Failed, may have left intermediate state; no data lost.
    Error,
    /// Data-loss or corruption risk.
    Critical,
}

/// Whether the failed operation modified the user's existing data.
#[derive(Debug, Clone, Copy, PartialEq, Eq, Structural)]
pub enum DataSafetyStatus {
    /// No writes happened.
    Untouched,
    /// Partial writes were rolled back inside a transaction.
    RolledBack,
    /// Partial writes were committed before the failure.
    PartiallyApplied,
}

/// Whether a retry button makes sense.
#[derive(Debug, Clone, Copy, PartialEq, Eq, Structural)]
pub enum RetryPolicy {
    /// Same arguments, same outcome.
    NotRetryable,
    /// The same call may succeed.
    Retryable,
    /// A prerequisite must be met first; the next steps describe it.
    RetryAfterPrereq,
}

/// Structured error a command returns.
#[derive(Debug, Clone)]
pub struct MizanError {
    /// Always `true`: the frontend decoder checks this discriminator.
    pub _discriminator: bool,
    /// Stable diagnostic code (SCREAMING_SNAKE_CASE).
    pub code: String,
    pub severity: MizanErrorSeverity,
    /// Short headline shown in the toast title.
    pub summary: String,
    /// Most likely cause; absent when genuinely unknown.
    pub why: Option<String>,
    pub data_safety: DataSafetyStatus,
    /// Short, actionable steps the user can take next.
    pub next_steps: Vec<String>,
    pub retry: RetryPolicy,
    /// Raw lower-layer error, for support bundles only.
    pub raw: Option<String>,
}

impl MizanError {
    /// A new error with the defaults: severity `Error`, data untouched,
    /// retryable, no cause, no steps, no raw message.
    pub fn new(code: &str, summary: &str) -> (r: Self)
        ensures
            r._discriminator,
            r.code@ == code@,
            r.summary@ == summary@,
            r.severity == MizanErrorSeverity::Error,
            r.why is None,
            r.data_safety == DataSafetyStatus::Untouched,
            r.next_steps@.len() == 0,
            r.retry == RetryPolicy::Retryable,
            r.raw is None,
    {
        MizanError {
            _discriminator: true,
            code: owned(code),
            severity: MizanErrorSeverity::Error,
            summary: owned(summary),
            why: None,
            data_safety: DataSafetyStatus::Untouched,
            next_steps: Vec::new(),
            retry: RetryPolicy::Retryable,
            raw: None,
        }
    }

    pub fn severity(self, s: MizanErrorSeverity) -> (r: Self)
        ensures
            r == (MizanError { severity: s, ..self }),
    {
        MizanError { severity: s, ..self }
    }

    pub fn why(self, why: &str) -> (r: Self)
        ensures
            r.why matches Some(w) && w@ == why@,
            r == (MizanError { why: r.why, ..self }),
    {
        MizanError { why: Some(owned(why)), ..self }
    }

    pub fn data_safety(self, s: DataSafetyStatus) -> (r: Self)
        ensures
            r == (MizanError { data_safety: s, ..self }),
    {
        MizanError { data_safety: s, ..self }
    }

    /// Appends one step to the next steps.
    pub fn next_step(self, step: &str) -> (r: Self)
        ensures
            r.next_steps@.len() == self.next_steps@.len() + 1,
            r.next_steps@.take(self.next_steps@.len() as int) == self.next_steps@,
            r.next_steps@.last()@ == step@,
            r == (MizanError { next_steps: r.next_steps, ..self }),
    {
        let mut e = self;
        e.next_steps.push(owned(step));
        assert(e.next_steps@.take(self.next_steps@.len() as int) =~= self.next_steps@);
        e
    }

    /// Replaces the next steps.
    pub fn next_steps(self, steps: Vec<String>) -> (r: Self)
        ensures
            r == (MizanError { next_steps: steps, ..self }),
    {
        MizanError { next_steps: steps, ..self }
    }

    pub fn retry(self, p: RetryPolicy) -> (r: Self)
        ensures
            r == (MizanError { retry: p, ..self }),
    {
        MizanError { retry: p, ..self }
    }

    pub fn raw(self, raw: &str) -> (r: Self)
        ensures
            r.raw matches Some(w) && w@ == raw@,
            r == (MizanError { raw: r.raw, ..self }),
    {
        MizanError { raw: Some(owned(raw)), ..self }
    }
}

/// Wraps a lower-layer error into a structured one, keeping its rendered
/// message as the raw text.
pub fn wrap<E: std::fmt::Display>(code: &str, summary: &str, source: E) -> (r: MizanError)
    ensures
        r._discriminator,
        r.code@ == code@,
        r.summary@ == summary@,
        r.severity == MizanErrorSeverity::Error,
        r.why is None,
        r.data_safety == DataSafetyStatus::Untouched,
        r.next_steps@.len() == 0,
        r.retry == RetryPolicy::Retryable,
        r.raw matches Some(w) && vstd::string::to_string_from_display_ensures::<E>(&source, w),
{
    let rendered = source.to_string();
    let mut e = MizanError::new(code, summary);
    e.raw = Some(rendered);
    e
}

} // verus!
