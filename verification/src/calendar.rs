//! Calendar reading through `chrono`: dates written `YYYY-MM-DD`, local
//! date-times in a given format, and RFC 3339 timestamps.

use vstd::prelude::*;
use crate::money::MoneyError;
use crate::text::{is_ascii_digit, nat_text, zero_pad};
use chrono::{TimeZone, Timelike};

verus! {

/// The canonical `YYYY-MM-DD` text of the calendar date that `chrono`
/// reads from `s` with the format `%Y-%m-%d`, if it reads one.
pub uninterp spec fn ymd_date_text(s: Seq<char>) -> Option<Seq<char>>;

/// The date of a local date-time that `chrono` reads from `s` with the
/// format `fmt` (as `YYYY-MM-DD` text), with its hour and minute.
pub uninterp spec fn naive_datetime_parts(s: Seq<char>, fmt: Seq<char>) -> Option<
    (Seq<char>, u32, u32),
>;

/// Whether `chrono` reads `s` as an RFC 3339 date and time.
pub uninterp spec fn rfc3339_accepts(s: Seq<char>) -> bool;

/// Reads `s` as a calendar date.
///
/// Trusted: calls `chrono::NaiveDate::parse_from_str(s, "%Y-%m-%d")` and, on
/// success, the date's `to_string()`; claims only that the outcome is the
/// value `ymd_date_text` names for `s`. The calendar rules themselves (field
/// widths, month lengths, leap years) are left to chrono and not stated.
#[verifier::external_body]
pub(crate) fn parse_ymd_date(s: &str) -> (r: Option<String>)
    ensures
        match r {
            Some(t) => ymd_date_text(s@) == Some(t@),
            None => ymd_date_text(s@) is None,
        },
{
    match chrono::NaiveDate::parse_from_str(s, "%Y-%m-%d") {
        Ok(d) => Some(d.to_string()),
        Err(_) => None,
    }
}

/// Reads `s` as a local date-time written in the format `fmt`.
///
/// Trusted: calls `chrono::NaiveDateTime::parse_from_str(s, fmt)` and, on
/// success, `date().to_string()`, `hour()` and `minute()` of the result;
/// claims only that the outcome is the value `naive_datetime_parts` names
/// for `s` and `fmt`. Which texts chrono accepts is left unstated.
#[verifier::external_body]
pub(crate) fn parse_naive_datetime(s: &str, fmt: &str) -> (r: Option<(String, u32, u32)>)
    ensures
        match r {
            Some((d, h, m)) => naive_datetime_parts(s@, fmt@) == Some((d@, h, m)),
            None => naive_datetime_parts(s@, fmt@) is None,
        },
{
    match chrono::NaiveDateTime::parse_from_str(s, fmt) {
        Ok(dt) => Some((dt.date().to_string(), dt.hour(), dt.minute())),
        Err(_) => None,
    }
}

/// Whether `s` is an RFC 3339 timestamp.
///
/// Trusted: calls `chrono::DateTime::parse_from_rfc3339(s)` and reports
/// whether it succeeded; claims only that the outcome is the value
/// `rfc3339_accepts` names for `s`.
#[verifier::external_body]
pub(crate) fn is_rfc3339(s: &str) -> (b: bool)
    ensures
        b == rfc3339_accepts(s@),
{
    chrono::DateTime::parse_from_rfc3339(s).is_ok()
}

/// An expense (or receipt) date must be a `YYYY-MM-DD` calendar date.
pub fn validate_expense_date(value: &str) -> (r: Result<(), MoneyError>)
    ensures
        r is Ok <==> ymd_date_text(value@) is Some,
        r is Err ==> r == Err::<(), MoneyError>(MoneyError::InvalidDate),
{
    match parse_ymd_date(value) {
        Some(_) => Ok(()),
        None => Err(MoneyError::InvalidDate),
    }
}

/// An optional expense date is valid when absent or a calendar date.
pub fn validate_expense_date_opt(value: &Option<String>) -> (r: Result<(), MoneyError>)
    ensures
        r is Ok <==> match value {
            Some(v) => ymd_date_text(v@) is Some,
            None => true,
        },
        r is Err ==> r == Err::<(), MoneyError>(MoneyError::InvalidDate),
{
    match value {
        Some(v) => validate_expense_date(v.as_str()),
        None => Ok(()),
    }
}

/// `t` is the local date-time with date text `d`, hour `h` and minute `m`,
/// written `{d}T{hh}:{mm}:{ss}{±hh:mm}`: the same date, hour and minute, two
/// digits of seconds, and a UTC offset in hours and minutes.
pub open spec fn local_rfc3339_form(t: Seq<char>, d: Seq<char>, h: u32, m: u32) -> bool {
    let p = d + seq!['T'] + zero_pad(nat_text(h as nat), 2) + seq![':'] + zero_pad(
        nat_text(m as nat),
        2,
    ) + seq![':'];
    let k = p.len() as int;
    &&& t.len() == k + 8
    &&& t.subrange(0, k) == p
    &&& is_ascii_digit(t[k]) && is_ascii_digit(t[k + 1])
    &&& (t[k + 2] == '+' || t[k + 2] == '-')
    &&& is_ascii_digit(t[k + 3]) && is_ascii_digit(t[k + 4])
    &&& t[k + 5] == ':'
    &&& is_ascii_digit(t[k + 6]) && is_ascii_digit(t[k + 7])
}

/// Reads `ts` as a local date-time written `YYYY-MM-DD HH:MM:SS` and writes
/// it in RFC 3339, with the UTC offset of the machine's time zone.
///
/// Trusted: calls `chrono::NaiveDateTime::parse_from_str(ts, "%Y-%m-%d %H:%M:%S")`,
/// then `chrono::Local.from_local_datetime(..).single()` (none when the local
/// time is ambiguous or skipped) and `to_rfc3339()`. Claimed: a result comes
/// back only when chrono reads `ts` in that format, and it is that date-time
/// as `to_rfc3339` writes it (the date as chrono displays it, `T`, the time,
/// the offset rounded to minutes). The offset depends on the machine's time
/// zone and is left open; so is whether `parse_from_rfc3339` reads the text
/// back (it refuses years outside 0..=9999 and an offset rounded to 24:00).
#[verifier::external_body]
pub(crate) fn local_datetime_to_rfc3339(ts: &str) -> (r: Option<String>)
    ensures
        r matches Some(t) ==> (naive_datetime_parts(ts@, "%Y-%m-%d %H:%M:%S"@) matches Some(
            (d, h, m),
        ) && local_rfc3339_form(t@, d, h, m)),
{
    match chrono::NaiveDateTime::parse_from_str(ts, "%Y-%m-%d %H:%M:%S") {
        Ok(naive) => match chrono::Local.from_local_datetime(&naive).single() {
            Some(local) => Some(local.to_rfc3339()),
            None => None,
        },
        Err(_) => None,
    }
}

} // verus!
