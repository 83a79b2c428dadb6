//! Calendar helpers: which strings parse as dates, calendar days and
//! their order, and the clock.
use vstd::prelude::*;

use chrono::Datelike;

verus! {

/// Whether chrono's `NaiveDate::parse_from_str` accepts `s` under format
/// `fmt`.
pub uninterp spec fn date_parses(s: Seq<char>, fmt: Seq<char>) -> bool;

/// `NaiveDate::parse_from_str(s, fmt).is_ok()`. Trusted to depend on the
/// characters of `s` and `fmt` alone; which strings parse is not stated.
#[verifier::external_body]
pub fn parses_as_date(s: &str, fmt: &str) -> (r: bool)
    ensures
        r == date_parses(s@, fmt@),
{
    chrono::NaiveDate::parse_from_str(s, fmt).is_ok()
}

/// The day (year, month, day of month) that chrono's
/// `NaiveDate::parse_from_str` reads from `s` under format `fmt`.
pub uninterp spec fn parsed_ymd(s: Seq<char>, fmt: Seq<char>) -> Option<(i32, u32, u32)>;

/// Whether chrono's `NaiveDate::from_ymd_opt(year, month, day)` gives a day:
/// the three name a day of the calendar chrono covers.
pub uninterp spec fn ymd_exists(year: i32, month: u32, day: u32) -> bool;

/// What chrono writes (`DateTime::<Utc>::to_rfc3339`) for the given day and
/// time of day in UTC.
pub uninterp spec fn utc_rfc3339(year: i32, month: u32, day: u32, hour: u32, min: u32, sec: u32) -> Seq<char>;

pub open spec fn as_calendar(p: Option<(i32, u32, u32)>) -> Option<CalendarDate> {
    match p {
        Some((y, m, d)) => Some(CalendarDate { year: y, month: m, day: d }),
        None => None,
    }
}

/// `NaiveDate::parse_from_str(s, fmt)`, read back by `year()`, `month()`
/// and `day()`. Trusted: the result depends on `s` and `fmt` alone, is
/// present exactly when the string parses, and is a day of chrono's
/// calendar (a `NaiveDate` always is one). Which strings parse, and to
/// what, is not stated.
#[verifier::external_body]
pub fn parse_date(s: &str, fmt: &str) -> (r: Option<CalendarDate>)
    ensures
        r == as_calendar(parsed_ymd(s@, fmt@)),
        r is Some <==> date_parses(s@, fmt@),
        r matches Some(d) ==> ymd_exists(d.year, d.month, d.day),
{
    match chrono::NaiveDate::parse_from_str(s, fmt) {
        Ok(d) => Some(CalendarDate { year: d.year(), month: d.month(), day: d.day() }),
        Err(_) => None,
    }
}

/// chrono: `NaiveDate::from_ymd_opt(year, month, day)`, then
/// `and_hms_opt(hour, min, sec)`, taken as UTC and written by
/// `to_rfc3339`. Trusted: present exactly when the day exists and the time
/// of day is a valid one (hour below 24, minute and second below 60, as
/// `NaiveTime::from_hms_nano_opt` checks), and then the text depends on the
/// six numbers alone; what the text is, is not stated.
#[verifier::external_body]
pub fn utc_timestamp_text(year: i32, month: u32, day: u32, hour: u32, min: u32, sec: u32) -> (r: Option<String>)
    ensures
        ymd_exists(year, month, day) && hour < 24 && min < 60 && sec < 60 ==> r is Some,
        r is Some ==> ymd_exists(year, month, day) && hour < 24 && min < 60 && sec < 60,
        r matches Some(t) ==> t@ == utc_rfc3339(year, month, day, hour, min, sec),
{
    match chrono::NaiveDate::from_ymd_opt(year, month, day) {
        Some(d) => match d.and_hms_opt(hour, min, sec) {
            Some(t) => Some(t.and_utc().to_rfc3339()),
            None => None,
        },
        None => None,
    }
}

/// The current time in milliseconds since the epoch:
/// `chrono::Utc::now().timestamp_millis()`. Nothing is stated of the value.
#[verifier::external_body]
pub(crate) fn now_millis() -> i64 {
    chrono::Utc::now().timestamp_millis()
}

/// A calendar day.
#[derive(Clone, Copy, Debug, PartialEq, Eq, Structural)]
pub struct CalendarDate {
    pub year: i32,
    pub month: u32,
    pub day: u32,
}

/// `a` is an earlier day than `b`: year, then month, then day.
pub open spec fn date_before(a: CalendarDate, b: CalendarDate) -> bool {
    a.year < b.year || (a.year == b.year && (a.month < b.month || (a.month == b.month && a.day < b.day)))
}

pub fn is_before(a: CalendarDate, b: CalendarDate) -> (r: bool)
    ensures
        r == date_before(a, b),
{
    a.year < b.year || (a.year == b.year && (a.month < b.month || (a.month == b.month && a.day < b.day)))
}

pub fn same_day(a: CalendarDate, b: CalendarDate) -> (r: bool)
    ensures
        r == (a == b),
{
    a.year == b.year && a.month == b.month && a.day == b.day
}

} // verus!
