//! Summaries of trips and days: trimmed, blank means none, and bounded in
//! length.

use vstd::prelude::*;
use crate::text::{chars_of, nat_text, push_nat_text, push_str, string_from_chars, trim, trim_chars};

verus! {

/// Longest trip summary, in characters.
pub const TRIP_SUMMARY_MAX_LEN: usize = 2000;

/// Longest day summary, in characters.
pub const DAY_SUMMARY_MAX_LEN: usize = 1000;

/// Why a summary was refused.
#[derive(Clone, Copy, Debug, PartialEq, Eq, Structural)]
pub enum SummaryError {
    /// Longer than the limit it carries.
    TooLong(usize),
    /// A summary read from an export was refused for the reason it carries.
    InvalidInExport(usize),
}

pub open spec fn summary_error_text(e: SummaryError) -> Seq<char> {
    match e {
        SummaryError::TooLong(n) => "summary exceeds maximum length ("@ + nat_text(n as nat)
            + " characters). Use a Note for longer text."@,
        SummaryError::InvalidInExport(n) => "invalid summary in export JSON: summary exceeds maximum length ("@
            + nat_text(n as nat) + " characters). Use a Note for longer text."@,
    }
}

impl SummaryError {
    /// The message shown to the user.
    pub fn message(&self) -> (s: String)
        ensures
            s@ == summary_error_text(*self),
    {
        let mut v: Vec<char> = Vec::new();
        match *self {
            SummaryError::TooLong(n) => {
                push_str(&mut v, "summary exceeds maximum length (");
                push_nat_text(&mut v, n as u64);
                push_str(&mut v, " characters). Use a Note for longer text.");
            },
            SummaryError::InvalidInExport(n) => {
                push_str(
                    &mut v,
                    "invalid summary in export JSON: summary exceeds maximum length (",
                );
                push_nat_text(&mut v, n as u64);
                push_str(&mut v, " characters). Use a Note for longer text.");
            },
        }
        assert(v@ =~= summary_error_text(*self));
        string_from_chars(v.as_slice())
    }
}

/// What `normalize_summary(input, max_len)` gives: the trimmed text, none
/// when absent or blank, an error when longer than `max_len` characters.
pub open spec fn summary_result(input: Option<Seq<char>>, max_len: nat) -> Result<
    Option<Seq<char>>,
    SummaryError,
> {
    match input {
        None => Ok(None),
        Some(raw) => {
            let t = trim(raw);
            if t.len() == 0 {
                Ok(None)
            } else if t.len() > max_len {
                Err(SummaryError::TooLong(max_len as usize))
            } else {
                Ok(Some(t))
            }
        },
    }
}

pub open spec fn opt_view(o: Option<&str>) -> Option<Seq<char>> {
    match o {
        Some(s) => Some(s@),
        None => None,
    }
}

pub open spec fn opt_string_view(o: Option<String>) -> Option<Seq<char>> {
    match o {
        Some(s) => Some(s@),
        None => None,
    }
}

/// Trims a summary; blank becomes none; longer than `max_len` characters is an error.
pub fn normalize_summary(input: Option<&str>, max_len: usize) -> (r: Result<
    Option<String>,
    SummaryError,
>)
    ensures
        match r {
            Ok(o) => summary_result(opt_view(input), max_len as nat) == Ok::<
                Option<Seq<char>>,
                SummaryError,
            >(opt_string_view(o)),
            Err(e) => summary_result(opt_view(input), max_len as nat) == Err::<
                Option<Seq<char>>,
                SummaryError,
            >(e),
        },
{
    let raw = match input {
        None => return Ok(None),
        Some(raw) => raw,
    };
    let all = chars_of(raw);
    let t = trim_chars(all.as_slice());
    if t.len() == 0 {
        return Ok(None);
    }
    if t.len() > max_len {
        return Err(SummaryError::TooLong(max_len));
    }
    Ok(Some(string_from_chars(t.as_slice())))
}

/// A trip summary (at most `TRIP_SUMMARY_MAX_LEN` characters).
pub fn normalize_trip_summary(input: Option<&str>) -> (r: Result<Option<String>, SummaryError>)
    ensures
        match r {
            Ok(o) => summary_result(opt_view(input), TRIP_SUMMARY_MAX_LEN as nat) == Ok::<
                Option<Seq<char>>,
                SummaryError,
            >(opt_string_view(o)),
            Err(e) => summary_result(opt_view(input), TRIP_SUMMARY_MAX_LEN as nat) == Err::<
                Option<Seq<char>>,
                SummaryError,
            >(e),
        },
{
    normalize_summary(input, TRIP_SUMMARY_MAX_LEN)
}

/// A day summary (at most `DAY_SUMMARY_MAX_LEN` characters).
pub fn normalize_day_summary(input: Option<&str>) -> (r: Result<Option<String>, SummaryError>)
    ensures
        match r {
            Ok(o) => summary_result(opt_view(input), DAY_SUMMARY_MAX_LEN as nat) == Ok::<
                Option<Seq<char>>,
                SummaryError,
            >(opt_string_view(o)),
            Err(e) => summary_result(opt_view(input), DAY_SUMMARY_MAX_LEN as nat) == Err::<
                Option<Seq<char>>,
                SummaryError,
            >(e),
        },
{
    normalize_summary(input, DAY_SUMMARY_MAX_LEN)
}

/// A summary read from an export: as `normalize_summary`, with the refusal
/// marked as coming from the export.
pub fn normalize_summary_for_import(input: Option<&str>, max_len: usize) -> (r: Result<
    Option<String>,
    SummaryError,
>)
    ensures
        match r {
            Ok(o) => summary_result(opt_view(input), max_len as nat) == Ok::<
                Option<Seq<char>>,
                SummaryError,
            >(opt_string_view(o)),
            Err(e) => summary_result(opt_view(input), max_len as nat) == Err::<
                Option<Seq<char>>,
                SummaryError,
            >(SummaryError::TooLong(max_len)) && e == SummaryError::InvalidInExport(max_len),
        },
{
    match normalize_summary(input, max_len) {
        Ok(o) => Ok(o),
        Err(_) => Err(SummaryError::InvalidInExport(max_len)),
    }
}

/// A normalized summary normalizes to itself.
pub proof fn lemma_summary_idempotent(input: Option<Seq<char>>, max_len: nat)
    requires
        summary_result(input, max_len) matches Ok(Some(_)),
    ensures
        summary_result(Some(summary_result(input, max_len)->Ok_0->Some_0), max_len)
            == summary_result(input, max_len),
{
    let t = trim(input->Some_0);
    crate::text::lemma_trim_idempotent(input->Some_0);
}

} // verus!
