//! Receipts waiting to be sorted out: their status values, the amount/currency
//! pairing rule, and the decisions behind adding, updating, importing,
//! assigning and validating them (the storage itself is not here).

use vstd::prelude::*;
use crate::calendar::{is_rfc3339, rfc3339_accepts, validate_expense_date, ymd_date_text};
use crate::models::{ExportReceiptV7, Receipt, TRIP_EXPORT_SCHEMA_VERSION, TRIP_EXPORT_SCHEMA_VERSION_V7};
use crate::money::{
    amount_display_text, amount_for_currency_result, currency_code_result, format_amount_display,
    money_error_text, parse_amount_for_currency, validate_currency_code, MoneyError,
};
use crate::summary::{opt_string_view, opt_view};
use crate::text::{
    push_line, strings_view,
    chars_of, int_text, nat_text, push_nat_text, push_str, str_eq, string_from_chars,
    trim, trim_chars, lemma_trim_idempotent,
};

verus! {

/// Status of a receipt that nobody has sorted out yet.
pub const RECEIPT_STATUS_UNREVIEWED: &'static str = "unreviewed";

/// Status of a receipt that was put in the trash.
pub const RECEIPT_STATUS_IGNORED: &'static str = "ignored";

/// Why a receipt operation was refused.
#[derive(Clone, Debug)]
pub enum ReceiptError {
    /// A status other than `unreviewed` and `ignored`; carries it.
    InvalidStatus(String),
    /// An amount without a currency.
    CurrencyRequiredWithAmount,
    /// A non-blank currency without an amount.
    AmountRequiredWithCurrency,
    /// Only one of amount and currency was given.
    AmountCurrencyTogether,
    /// Neither a memo nor an amount.
    ContentRequired,
    /// The currency, amount or date was refused.
    Money(MoneyError),
    /// A trashed receipt cannot become an expense.
    Trashed,
    /// Assigning needs an amount and a currency, and neither is known.
    AssignAmountRequired,
    /// The stored receipt holds only one of amount and currency.
    PairInvalid,
    /// An update gave a currency without an amount.
    UpdateAmountRequired,
    /// An update gave an amount without a currency.
    UpdateCurrencyRequired,
}

/// The meaning of a `ReceiptError`.
pub enum ReceiptFault {
    InvalidStatus(Seq<char>),
    CurrencyRequiredWithAmount,
    AmountRequiredWithCurrency,
    AmountCurrencyTogether,
    ContentRequired,
    Money(MoneyError),
    Trashed,
    AssignAmountRequired,
    PairInvalid,
    UpdateAmountRequired,
    UpdateCurrencyRequired,
}

impl View for ReceiptError {
    type V = ReceiptFault;

    open spec fn view(&self) -> ReceiptFault {
        match self {
            ReceiptError::InvalidStatus(s) => ReceiptFault::InvalidStatus(s@),
            ReceiptError::CurrencyRequiredWithAmount => ReceiptFault::CurrencyRequiredWithAmount,
            ReceiptError::AmountRequiredWithCurrency => ReceiptFault::AmountRequiredWithCurrency,
            ReceiptError::AmountCurrencyTogether => ReceiptFault::AmountCurrencyTogether,
            ReceiptError::ContentRequired => ReceiptFault::ContentRequired,
            ReceiptError::Money(e) => ReceiptFault::Money(*e),
            ReceiptError::Trashed => ReceiptFault::Trashed,
            ReceiptError::AssignAmountRequired => ReceiptFault::AssignAmountRequired,
            ReceiptError::PairInvalid => ReceiptFault::PairInvalid,
            ReceiptError::UpdateAmountRequired => ReceiptFault::UpdateAmountRequired,
            ReceiptError::UpdateCurrencyRequired => ReceiptFault::UpdateCurrencyRequired,
        }
    }
}

pub open spec fn receipt_fault_text(f: ReceiptFault) -> Seq<char> {
    match f {
        ReceiptFault::InvalidStatus(s) => "invalid receipt status: "@ + s,
        ReceiptFault::CurrencyRequiredWithAmount => "currency is required when amount is set"@,
        ReceiptFault::AmountRequiredWithCurrency => "amount is required when currency is set"@,
        ReceiptFault::AmountCurrencyTogether => "amount and currency must be provided together"@,
        ReceiptFault::ContentRequired => "receipt requires memo and/or amount with currency"@,
        ReceiptFault::Money(e) => money_error_text(e),
        ReceiptFault::Trashed => "cannot assign trashed receipt"@,
        ReceiptFault::AssignAmountRequired => "amount and currency are required for assign"@,
        ReceiptFault::PairInvalid => "receipt amount/currency pair is invalid"@,
        ReceiptFault::UpdateAmountRequired => "amount is required when updating currency"@,
        ReceiptFault::UpdateCurrencyRequired => "currency is required when updating amount"@,
    }
}

impl ReceiptError {
    /// The message shown to the user.
    pub fn message(&self) -> (s: String)
        ensures
            s@ == receipt_fault_text(self@),
    {
        match self {
            ReceiptError::InvalidStatus(st) => {
                let mut v: Vec<char> = Vec::new();
                push_str(&mut v, "invalid receipt status: ");
                push_str(&mut v, st.as_str());
                string_from_chars(v.as_slice())
            },
            ReceiptError::Money(e) => e.message(),
            ReceiptError::CurrencyRequiredWithAmount => String::from_str(
                "currency is required when amount is set",
            ),
            ReceiptError::AmountRequiredWithCurrency => String::from_str(
                "amount is required when currency is set",
            ),
            ReceiptError::AmountCurrencyTogether => String::from_str(
                "amount and currency must be provided together",
            ),
            ReceiptError::ContentRequired => String::from_str(
                "receipt requires memo and/or amount with currency",
            ),
            ReceiptError::Trashed => String::from_str("cannot assign trashed receipt"),
            ReceiptError::AssignAmountRequired => String::from_str(
                "amount and currency are required for assign",
            ),
            ReceiptError::PairInvalid => String::from_str("receipt amount/currency pair is invalid"),
            ReceiptError::UpdateAmountRequired => String::from_str(
                "amount is required when updating currency",
            ),
            ReceiptError::UpdateCurrencyRequired => String::from_str(
                "currency is required when updating amount",
            ),
        }
    }
}

pub open spec fn is_receipt_status(s: Seq<char>) -> bool {
    s == "unreviewed"@ || s == "ignored"@
}

/// Only `unreviewed` and `ignored` are receipt statuses.
pub fn validate_receipt_status(status: &str) -> (r: Result<(), ReceiptError>)
    ensures
        r is Ok <==> is_receipt_status(status@),
        r matches Err(e) ==> e@ == ReceiptFault::InvalidStatus(status@),
{
    if str_eq(status, RECEIPT_STATUS_UNREVIEWED) || str_eq(status, RECEIPT_STATUS_IGNORED) {
        Ok(())
    } else {
        Err(ReceiptError::InvalidStatus(status.to_owned()))
    }
}

/// The status an imported receipt gets: legacy `linked` and `converted`
/// become `unreviewed`; valid statuses stay; anything else is refused.
pub open spec fn import_status(s: Seq<char>) -> Option<Seq<char>> {
    if is_receipt_status(s) {
        Some(s)
    } else if s == "linked"@ || s == "converted"@ {
        Some("unreviewed"@)
    } else {
        None
    }
}

pub fn normalize_import_receipt_status(status: &str) -> (r: Result<String, ReceiptError>)
    ensures
        match r {
            Ok(s) => import_status(status@) == Some(s@),
            Err(e) => import_status(status@) is None && e@ == ReceiptFault::InvalidStatus(
                status@,
            ),
        },
{
    if str_eq(status, RECEIPT_STATUS_UNREVIEWED) || str_eq(status, RECEIPT_STATUS_IGNORED) {
        Ok(status.to_owned())
    } else if str_eq(status, "linked") || str_eq(status, "converted") {
        Ok(String::from_str(RECEIPT_STATUS_UNREVIEWED))
    } else {
        match validate_receipt_status(status) {
            Ok(()) => Ok(status.to_owned()),
            Err(e) => Err(e),
        }
    }
}

/// A memo is trimmed; a blank memo is no memo.
pub open spec fn normalized_memo(memo: Option<Seq<char>>) -> Option<Seq<char>> {
    match memo {
        None => None,
        Some(t) => if trim(t).len() == 0 {
            None
        } else {
            Some(trim(t))
        },
    }
}

/// Normalizing a memo twice is normalizing it once.
pub proof fn lemma_memo_idempotent(memo: Option<Seq<char>>)
    ensures
        normalized_memo(normalized_memo(memo)) == normalized_memo(memo),
{
    if let Some(t) = memo {
        lemma_trim_idempotent(t);
    }
}

pub fn normalize_optional_memo(memo: Option<&str>) -> (r: Result<Option<String>, ReceiptError>)
    ensures
        r matches Ok(o) && opt_string_view(o) == normalized_memo(opt_view(memo)),
{
    match memo {
        None => Ok(None),
        Some(text) => {
            let all = chars_of(text);
            let t = trim_chars(all.as_slice());
            if t.len() == 0 {
                Ok(None)
            } else {
                Ok(Some(string_from_chars(t.as_slice())))
            }
        },
    }
}

/// The amount/currency pairing rule: an amount needs a currency, and a
/// non-blank currency needs an amount.
pub open spec fn pair_fault(amount: Option<i64>, currency: Option<Seq<char>>) -> Option<ReceiptFault> {
    match (amount, currency) {
        (Some(_), None) => Some(ReceiptFault::CurrencyRequiredWithAmount),
        (None, Some(c)) => if trim(c).len() > 0 {
            Some(ReceiptFault::AmountRequiredWithCurrency)
        } else {
            None
        },
        _ => None,
    }
}

pub fn validate_receipt_amount_currency_pair(amount: Option<i64>, currency: &Option<String>) -> (r:
    Result<(), ReceiptError>)
    ensures
        match r {
            Ok(()) => pair_fault(amount, opt_string_view(*currency)) is None,
            Err(e) => pair_fault(amount, opt_string_view(*currency)) == Some(e@),
        },
{
    match (amount, currency) {
        (Some(_), None) => Err(ReceiptError::CurrencyRequiredWithAmount),
        (None, Some(c)) => {
            let all = chars_of(c.as_str());
            let t = trim_chars(all.as_slice());
            if t.len() > 0 {
                Err(ReceiptError::AmountRequiredWithCurrency)
            } else {
                Ok(())
            }
        },
        _ => Ok(()),
    }
}

/// A receipt must hold a memo or an amount.
pub fn validate_receipt_has_content(memo: &Option<String>, amount: Option<i64>) -> (r: Result<
    (),
    ReceiptError,
>)
    ensures
        r is Ok <==> (memo is Some || amount is Some),
        r matches Err(e) ==> e@ == ReceiptFault::ContentRequired,
{
    if memo.is_some() || amount.is_some() {
        Ok(())
    } else {
        Err(ReceiptError::ContentRequired)
    }
}

/// Display of an optional amount with its currency (`-` unless both are set).
pub fn format_amount_optional(amount: Option<i64>, currency: &Option<String>) -> (s: String)
    ensures
        s@ == match (amount, *currency) {
            (Some(v), Some(c)) => amount_display_text(v as int, c@),
            _ => "-"@,
        },
{
    match (amount, currency) {
        (Some(value), Some(cur)) => format_amount_display(value, cur.as_str()),
        _ => String::from_str("-"),
    }
}

/// The amount and currency of a receipt being written, from the texts
/// typed by the user: both or neither must be given; the currency is
/// normalized and the amount read in its minor unit.
pub open spec fn typed_pair(amount: Option<Seq<char>>, currency: Option<Seq<char>>) -> Result<
    (Option<int>, Option<Seq<char>>),
    ReceiptFault,
> {
    match (amount, currency) {
        (Some(a), Some(c)) => match currency_code_result(c) {
            Err(e) => Err(ReceiptFault::Money(e)),
            Ok(code) => match amount_for_currency_result(a, code) {
                Err(e) => Err(ReceiptFault::Money(e)),
                Ok(x) => Ok((Some(x), Some(code))),
            },
        },
        (None, None) => Ok((None, None)),
        _ => Err(ReceiptFault::AmountCurrencyTogether),
    }
}

/// The fields of a new receipt decided before it is stored.
#[derive(Clone, Debug)]
pub struct NewReceiptFields {
    pub amount: Option<i64>,
    pub currency: Option<String>,
    pub memo: Option<String>,
}

pub open spec fn opt_int(o: Option<i64>) -> Option<int> {
    match o {
        Some(x) => Some(x as int),
        None => None,
    }
}

/// What `prepare_new_receipt` decides: the memo is normalized, the pair is
/// read, then the receipt must hold a memo or an amount, then a given date
/// must be a calendar date.
pub open spec fn new_receipt_result(
    amount: Option<Seq<char>>,
    currency: Option<Seq<char>>,
    occurred_date: Option<Seq<char>>,
    memo: Option<Seq<char>>,
) -> Result<(Option<int>, Option<Seq<char>>, Option<Seq<char>>), ReceiptFault> {
    let m = normalized_memo(memo);
    match typed_pair(amount, currency) {
        Err(f) => Err(f),
        Ok((a, c)) => if m is None && a is None {
            Err(ReceiptFault::ContentRequired)
        } else if occurred_date matches Some(d) && ymd_date_text(d) is None {
            Err(ReceiptFault::Money(MoneyError::InvalidDate))
        } else {
            Ok((a, c, m))
        },
    }
}

/// Reads the amount and currency typed for a receipt.
pub fn read_typed_pair(amount_input: Option<&str>, currency_input: Option<&str>) -> (r: Result<
    (Option<i64>, Option<String>),
    ReceiptError,
>)
    ensures
        match r {
            Ok((a, c)) => typed_pair(opt_view(amount_input), opt_view(currency_input)) == Ok::<
                (Option<int>, Option<Seq<char>>),
                ReceiptFault,
            >((opt_int(a), opt_string_view(c))),
            Err(e) => typed_pair(opt_view(amount_input), opt_view(currency_input)) == Err::<
                (Option<int>, Option<Seq<char>>),
                ReceiptFault,
            >(e@),
        },
{
    match (amount_input, currency_input) {
        (Some(amount_str), Some(currency_str)) => {
            let currency = match validate_currency_code(currency_str) {
                Ok(c) => c,
                Err(e) => return Err(ReceiptError::Money(e)),
            };
            let amount = match parse_amount_for_currency(amount_str, currency.as_str()) {
                Ok(a) => a,
                Err(e) => return Err(ReceiptError::Money(e)),
            };
            Ok((Some(amount), Some(currency)))
        },
        (None, None) => Ok((None, None)),
        _ => Err(ReceiptError::AmountCurrencyTogether),
    }
}

/// Decides the stored fields of a new receipt (after the trip was found and
/// before its day is looked up); a new receipt is `unreviewed`.
pub fn prepare_new_receipt(
    amount_input: Option<&str>,
    currency_input: Option<&str>,
    occurred_date: Option<&str>,
    memo: Option<&str>,
) -> (r: Result<NewReceiptFields, ReceiptError>)
    ensures
        match r {
            Ok(f) => new_receipt_result(
                opt_view(amount_input),
                opt_view(currency_input),
                opt_view(occurred_date),
                opt_view(memo),
            ) == Ok::<(Option<int>, Option<Seq<char>>, Option<Seq<char>>), ReceiptFault>(
                (opt_int(f.amount), opt_string_view(f.currency), opt_string_view(f.memo)),
            ),
            Err(e) => new_receipt_result(
                opt_view(amount_input),
                opt_view(currency_input),
                opt_view(occurred_date),
                opt_view(memo),
            ) == Err::<(Option<int>, Option<Seq<char>>, Option<Seq<char>>), ReceiptFault>(e@),
        },
{
    let memo = match normalize_optional_memo(memo) {
        Ok(m) => m,
        Err(e) => return Err(e),
    };
    let (amount, currency) = match read_typed_pair(amount_input, currency_input) {
        Ok(p) => p,
        Err(e) => return Err(e),
    };
    match validate_receipt_amount_currency_pair(amount, &currency) {
        Ok(()) => {},
        Err(e) => return Err(e),
    }
    match validate_receipt_has_content(&memo, amount) {
        Ok(()) => {},
        Err(e) => return Err(e),
    }
    match occurred_date {
        Some(date) => match validate_expense_date(date) {
            Ok(()) => {},
            Err(e) => return Err(ReceiptError::Money(e)),
        },
        None => {},
    }
    Ok(NewReceiptFields { amount, currency, memo })
}

/// What an update of a receipt asks for.
pub struct UpdateReceiptParams<'a> {
    pub day_number: Option<i64>,
    pub amount_input: Option<&'a str>,
    pub currency_input: Option<&'a str>,
    pub occurred_date: Option<Option<&'a str>>,
    pub memo: Option<Option<&'a str>>,
    pub clear_day: bool,
    pub clear_amount_currency: bool,
}

/// The editable fields of a receipt after an update.
#[derive(Clone, Debug)]
pub struct ReceiptChanges {
    pub day_id: Option<i64>,
    pub amount: Option<i64>,
    pub currency: Option<String>,
    pub occurred_date: Option<String>,
    pub memo: Option<String>,
}

pub open spec fn opt_opt_view(o: Option<Option<&str>>) -> Option<Option<Seq<char>>> {
    match o {
        Some(x) => Some(opt_view(x)),
        None => None,
    }
}

/// What `plan_receipt_update` decides, given the stored receipt, the
/// request and the id of the requested day (when a day was requested).
pub open spec fn receipt_update_result(
    existing: Receipt,
    day_number: Option<i64>,
    amount: Option<Seq<char>>,
    currency: Option<Seq<char>>,
    occurred_date: Option<Option<Seq<char>>>,
    memo: Option<Option<Seq<char>>>,
    clear_day: bool,
    clear_amount_currency: bool,
    requested_day_id: Option<i64>,
) -> Result<
    (Option<i64>, Option<int>, Option<Seq<char>>, Option<Seq<char>>, Option<Seq<char>>),
    ReceiptFault,
> {
    let day = if day_number is Some {
        requested_day_id
    } else if clear_day {
        None
    } else {
        existing.day_id
    };
    let pair: Result<(Option<int>, Option<Seq<char>>), ReceiptFault> = if clear_amount_currency {
        Ok((None, None))
    } else if amount is Some || currency is Some {
        if amount is None {
            Err(ReceiptFault::UpdateAmountRequired)
        } else if currency is None {
            Err(ReceiptFault::UpdateCurrencyRequired)
        } else {
            typed_pair(amount, currency)
        }
    } else {
        Ok((opt_int(existing.amount), opt_string_view(existing.currency)))
    };
    match pair {
        Err(f) => Err(f),
        Ok((a, c)) => {
            if occurred_date matches Some(Some(d)) && ymd_date_text(d) is None {
                Err(ReceiptFault::Money(MoneyError::InvalidDate))
            } else {
                let date = match occurred_date {
                    Some(d) => d,
                    None => opt_string_view(existing.occurred_date),
                };
                let m = match memo {
                    Some(x) => normalized_memo(x),
                    None => opt_string_view(existing.memo),
                };
                let pair_ok = match (a, c) {
                    (Some(_), None) => Some(ReceiptFault::CurrencyRequiredWithAmount),
                    (None, Some(cc)) => if trim(cc).len() > 0 {
                        Some(ReceiptFault::AmountRequiredWithCurrency)
                    } else {
                        None
                    },
                    _ => None,
                };
                if pair_ok is Some {
                    Err(pair_ok->Some_0)
                } else if m is None && a is None {
                    Err(ReceiptFault::ContentRequired)
                } else {
                    Ok((day, a, c, date, m))
                }
            }
        },
    }
}

/// Decides the fields of a receipt after an update (after the receipt and,
/// when asked, the day were looked up).
pub fn plan_receipt_update(
    existing: &Receipt,
    params: &UpdateReceiptParams,
    requested_day_id: Option<i64>,
) -> (r: Result<ReceiptChanges, ReceiptError>)
    requires
        params.day_number is Some <==> requested_day_id is Some,
    ensures
        match r {
            Ok(c) => receipt_update_result(
                *existing,
                params.day_number,
                opt_view(params.amount_input),
                opt_view(params.currency_input),
                opt_opt_view(params.occurred_date),
                opt_opt_view(params.memo),
                params.clear_day,
                params.clear_amount_currency,
                requested_day_id,
            ) == Ok::<
                (Option<i64>, Option<int>, Option<Seq<char>>, Option<Seq<char>>, Option<Seq<char>>),
                ReceiptFault,
            >(
                (
                    c.day_id,
                    opt_int(c.amount),
                    opt_string_view(c.currency),
                    opt_string_view(c.occurred_date),
                    opt_string_view(c.memo),
                ),
            ),
            Err(e) => receipt_update_result(
                *existing,
                params.day_number,
                opt_view(params.amount_input),
                opt_view(params.currency_input),
                opt_opt_view(params.occurred_date),
                opt_opt_view(params.memo),
                params.clear_day,
                params.clear_amount_currency,
                requested_day_id,
            ) == Err::<
                (Option<i64>, Option<int>, Option<Seq<char>>, Option<Seq<char>>, Option<Seq<char>>),
                ReceiptFault,
            >(e@),
        },
{
    let mut day_id = existing.day_id;
    let mut amount = existing.amount;
    let mut currency = existing.currency.clone();
    let mut occurred_date = existing.occurred_date.clone();
    let mut memo = existing.memo.clone();
    if params.clear_day {
        day_id = None;
    }
    if params.day_number.is_some() {
        day_id = requested_day_id;
    }
    if params.clear_amount_currency {
        amount = None;
        currency = None;
    } else if params.amount_input.is_some() || params.currency_input.is_some() {
        if params.amount_input.is_none() {
            return Err(ReceiptError::UpdateAmountRequired);
        }
        if params.currency_input.is_none() {
            return Err(ReceiptError::UpdateCurrencyRequired);
        }
        match read_typed_pair(params.amount_input, params.currency_input) {
            Ok((a, c)) => {
                amount = a;
                currency = c;
            },
            Err(e) => return Err(e),
        }
    }
    match params.occurred_date {
        Some(Some(date)) => {
            match validate_expense_date(date) {
                Ok(()) => {},
                Err(e) => return Err(ReceiptError::Money(e)),
            }
            occurred_date = Some(date.to_owned());
        },
        Some(None) => {
            occurred_date = None;
        },
        None => {},
    }
    match params.memo {
        Some(m) => {
            memo = match normalize_optional_memo(m) {
                Ok(x) => x,
                Err(e) => return Err(e),
            };
        },
        None => {},
    }
    match validate_receipt_amount_currency_pair(amount, &currency) {
        Ok(()) => {},
        Err(e) => return Err(e),
    }
    match validate_receipt_has_content(&memo, amount) {
        Ok(()) => {},
        Err(e) => return Err(e),
    }
    Ok(ReceiptChanges { day_id, amount, currency, occurred_date, memo })
}

/// When an imported receipt counts as trashed.
#[derive(Clone, Debug)]
pub enum ImportTrashed {
    /// The export gives the moment; carries it.
    Given(String),
    /// The receipt is `ignored` without a moment: trashed now.
    Now,
    /// Not trashed.
    No,
}

/// The decisions about an imported receipt, before its day is looked up.
#[derive(Clone, Debug)]
pub struct ImportedReceipt {
    pub status: String,
    pub trashed: ImportTrashed,
}

/// What `plan_receipt_import` decides: the normalized status, or the first
/// refusal among status, amount/currency pairing, date and content.
pub open spec fn receipt_import_fault(export: ExportReceiptV7) -> Option<ReceiptFault> {
    if import_status(export.status@) is None {
        Some(ReceiptFault::InvalidStatus(export.status@))
    } else if pair_fault(export.amount, opt_string_view(export.currency)) is Some {
        pair_fault(export.amount, opt_string_view(export.currency))
    } else if export.occurred_date matches Some(d) && ymd_date_text(d@) is None {
        Some(ReceiptFault::Money(MoneyError::InvalidDate))
    } else if export.memo is None && export.amount is None {
        Some(ReceiptFault::ContentRequired)
    } else {
        None
    }
}

/// Checks an exported receipt and decides its status and trash state.
pub fn plan_receipt_import(export: &ExportReceiptV7) -> (r: Result<ImportedReceipt, ReceiptError>)
    ensures
        match r {
            Ok(p) => receipt_import_fault(*export) is None && import_status(export.status@) == Some(
                p.status@,
            ) && match p.trashed {
                ImportTrashed::Given(t) => export.trashed_at == Some(t),
                ImportTrashed::Now => export.trashed_at is None && p.status@ == "ignored"@,
                ImportTrashed::No => export.trashed_at is None && p.status@ != "ignored"@,
            },
            Err(e) => receipt_import_fault(*export) == Some(e@),
        },
{
    let status = match normalize_import_receipt_status(export.status.as_str()) {
        Ok(s) => s,
        Err(e) => return Err(e),
    };
    match validate_receipt_amount_currency_pair(export.amount, &export.currency) {
        Ok(()) => {},
        Err(e) => return Err(e),
    }
    match &export.occurred_date {
        Some(date) => match validate_expense_date(date.as_str()) {
            Ok(()) => {},
            Err(e) => return Err(ReceiptError::Money(e)),
        },
        None => {},
    }
    match validate_receipt_has_content(&export.memo, export.amount) {
        Ok(()) => {},
        Err(e) => return Err(e),
    }
    let trashed = match &export.trashed_at {
        Some(t) => ImportTrashed::Given(t.clone()),
        None => if str_eq(status.as_str(), RECEIPT_STATUS_IGNORED) {
            ImportTrashed::Now
        } else {
            ImportTrashed::No
        },
    };
    Ok(ImportedReceipt { status, trashed })
}

/// The texts given to the expense that an assigned receipt becomes.
#[derive(Clone, Debug)]
pub struct ReceiptAssignment {
    /// Amount text, as typed or as the receipt's stored amount.
    pub amount_text: String,
    /// Currency text, as typed or as the receipt's stored currency.
    pub currency_text: String,
    /// Expense title: the memo, or `Receipt {amount display}`.
    pub title: String,
    /// Expense date: the receipt's occurred date.
    pub expense_date: Option<String>,
}

/// Amount and currency texts for the expense: the typed pair wins; the
/// receipt's own pair is used when nothing is typed.
pub open spec fn assignment_pair(
    amount: Option<i64>,
    currency: Option<Seq<char>>,
    amount_input: Option<Seq<char>>,
    currency_input: Option<Seq<char>>,
) -> Result<(Seq<char>, Seq<char>), ReceiptFault> {
    match (amount, currency, amount_input, currency_input) {
        (Some(a), Some(c), None, None) => Ok((int_text(a as int), c)),
        (_, _, Some(a), Some(c)) => Ok((a, c)),
        (Some(_), Some(_), _, _) => Err(ReceiptFault::AmountCurrencyTogether),
        (None, None, None, None) => Err(ReceiptFault::AssignAmountRequired),
        (None, None, _, _) => Err(ReceiptFault::AmountCurrencyTogether),
        _ => Err(ReceiptFault::PairInvalid),
    }
}

/// What `plan_receipt_assignment` decides.
pub open spec fn assignment_result(
    receipt: Receipt,
    amount_input: Option<Seq<char>>,
    currency_input: Option<Seq<char>>,
    memo_input: Option<Seq<char>>,
) -> Result<(Seq<char>, Seq<char>, Seq<char>, Option<Seq<char>>), ReceiptFault> {
    if receipt.trashed_at is Some {
        Err(ReceiptFault::Trashed)
    } else {
        match assignment_pair(
            receipt.amount,
            opt_string_view(receipt.currency),
            amount_input,
            currency_input,
        ) {
            Err(f) => Err(f),
            Ok((a, c)) => match currency_code_result(c) {
                Err(e) => Err(ReceiptFault::Money(e)),
                Ok(code) => match amount_for_currency_result(a, code) {
                    Err(e) => Err(ReceiptFault::Money(e)),
                    Ok(x) => {
                        let memo = match memo_input {
                            Some(m) if trim(m).len() > 0 => Some(trim(m)),
                            _ => opt_string_view(receipt.memo),
                        };
                        let title = match memo {
                            Some(m) => m,
                            None => "Receipt "@ + amount_display_text(x, code),
                        };
                        Ok((a, c, title, opt_string_view(receipt.occurred_date)))
                    },
                },
            },
        }
    }
}

/// The memo typed at assignment decides only the expense's title. Whether
/// the assignment goes through, and the amount, currency and date it gives,
/// are the same with or without it. A memo that is not blank becomes the
/// title (trimmed), whatever memo the receipt holds; without one (or with a
/// blank one) the receipt's own memo is the title when it has one.
pub proof fn lemma_assignment_memo_sets_title(
    receipt: Receipt,
    amount_input: Option<Seq<char>>,
    currency_input: Option<Seq<char>>,
    memo_input: Option<Seq<char>>,
)
    ensures
        ({
            let with_memo = assignment_result(receipt, amount_input, currency_input, memo_input);
            let without = assignment_result(receipt, amount_input, currency_input, None);
            &&& with_memo is Ok <==> without is Ok
            &&& with_memo is Err ==> with_memo == without
            &&& (with_memo matches Ok(a) ==> without matches Ok(b) && a.0 == b.0 && a.1 == b.1
                && a.3 == b.3)
            &&& (memo_input matches Some(m) ==> (trim(m).len() > 0 ==> (with_memo matches Ok(a)
                ==> a.2 == trim(m))))
            &&& (memo_input matches Some(m) && trim(m).len() == 0 ==> with_memo == without)
            &&& (receipt.memo matches Some(rm) ==> (without matches Ok(b) ==> b.2 == rm@))
        }),
{
}

/// Decides the expense that an untrashed receipt becomes when it is
/// assigned to an itinerary item (before the expense is stored and the
/// receipt removed).
pub fn plan_receipt_assignment(
    receipt: &Receipt,
    amount_input: Option<&str>,
    currency_input: Option<&str>,
    memo_input: Option<&str>,
) -> (r: Result<ReceiptAssignment, ReceiptError>)
    ensures
        match r {
            Ok(p) => assignment_result(
                *receipt,
                opt_view(amount_input),
                opt_view(currency_input),
                opt_view(memo_input),
            ) == Ok::<(Seq<char>, Seq<char>, Seq<char>, Option<Seq<char>>), ReceiptFault>(
                (p.amount_text@, p.currency_text@, p.title@, opt_string_view(p.expense_date)),
            ),
            Err(e) => assignment_result(
                *receipt,
                opt_view(amount_input),
                opt_view(currency_input),
                opt_view(memo_input),
            ) == Err::<(Seq<char>, Seq<char>, Seq<char>, Option<Seq<char>>), ReceiptFault>(e@),
        },
{
    if receipt.trashed_at.is_some() {
        return Err(ReceiptError::Trashed);
    }
    let (amount_text, currency_text): (String, String) = match (
        receipt.amount,
        &receipt.currency,
        amount_input,
        currency_input,
    ) {
        (Some(amount), Some(currency), None, None) => (
            crate::text::int_to_string(amount),
            currency.clone(),
        ),
        (_, _, Some(a), Some(c)) => (a.to_owned(), c.to_owned()),
        (Some(_), Some(_), _, _) => return Err(ReceiptError::AmountCurrencyTogether),
        (None, None, None, None) => return Err(ReceiptError::AssignAmountRequired),
        (None, None, _, _) => return Err(ReceiptError::AmountCurrencyTogether),
        _ => return Err(ReceiptError::PairInvalid),
    };
    let merged_memo: Option<String> = match memo_input {
        Some(m) => {
            let all = chars_of(m);
            let t = trim_chars(all.as_slice());
            if t.len() > 0 {
                Some(string_from_chars(t.as_slice()))
            } else {
                receipt.memo.clone()
            }
        },
        None => receipt.memo.clone(),
    };
    let parsed_currency = match validate_currency_code(currency_text.as_str()) {
        Ok(c) => c,
        Err(e) => return Err(ReceiptError::Money(e)),
    };
    let parsed_amount = match parse_amount_for_currency(
        amount_text.as_str(),
        parsed_currency.as_str(),
    ) {
        Ok(a) => a,
        Err(e) => return Err(ReceiptError::Money(e)),
    };
    let title = match merged_memo {
        Some(m) => m,
        None => {
            let display = format_amount_display(parsed_amount, parsed_currency.as_str());
            let mut v: Vec<char> = Vec::new();
            push_str(&mut v, "Receipt ");
            push_str(&mut v, display.as_str());
            string_from_chars(v.as_slice())
        },
    };
    Ok(ReceiptAssignment {
        amount_text,
        currency_text,
        title,
        expense_date: receipt.occurred_date.clone(),
    })
}

/// `receipts[{index}]`.
pub open spec fn receipt_prefix(index: nat) -> Seq<char> {
    "receipts["@ + nat_text(index) + "]"@
}

/// A status other than a receipt status.
pub open spec fn receipt_status_errors(r: ExportReceiptV7, p: Seq<char>) -> Seq<Seq<char>> {
    if is_receipt_status(r.status@) {
        Seq::<Seq<char>>::empty()
    } else {
        seq![p + ".status: "@ + receipt_fault_text(ReceiptFault::InvalidStatus(r.status@))]
    }
}

/// An amount without a currency, or a currency without an amount.
pub open spec fn receipt_pair_errors(r: ExportReceiptV7, p: Seq<char>) -> Seq<Seq<char>> {
    match pair_fault(r.amount, opt_string_view(r.currency)) {
        Some(f) => seq![p + ": "@ + receipt_fault_text(f)],
        None => Seq::<Seq<char>>::empty(),
    }
}

/// Neither a memo nor an amount.
pub open spec fn receipt_content_errors(r: ExportReceiptV7, p: Seq<char>) -> Seq<Seq<char>> {
    if r.amount is None && r.memo is None {
        seq![p + ": memo and/or amount required"@]
    } else {
        Seq::<Seq<char>>::empty()
    }
}

/// A malformed currency code.
pub open spec fn receipt_currency_errors(r: ExportReceiptV7, p: Seq<char>) -> Seq<Seq<char>> {
    match r.currency {
        Some(c) => match currency_code_result(c@) {
            Err(e) => seq![p + ".currency: "@ + money_error_text(e)],
            Ok(_) => Seq::<Seq<char>>::empty(),
        },
        None => Seq::<Seq<char>>::empty(),
    }
}

/// A date that is not a calendar date.
pub open spec fn receipt_date_errors(r: ExportReceiptV7, p: Seq<char>) -> Seq<Seq<char>> {
    match r.occurred_date {
        Some(d) => if ymd_date_text(d@) is None {
            seq![p + ".occurred_date: "@ + money_error_text(MoneyError::InvalidDate)]
        } else {
            Seq::<Seq<char>>::empty()
        },
        None => Seq::<Seq<char>>::empty(),
    }
}

/// A trash time that is not RFC 3339, or one in a schema that has none.
pub open spec fn receipt_trash_errors(r: ExportReceiptV7, p: Seq<char>, schema: i32) -> Seq<
    Seq<char>,
> {
    if schema >= TRIP_EXPORT_SCHEMA_VERSION {
        match r.trashed_at {
            Some(ts) => if rfc3339_accepts(ts@) {
                Seq::<Seq<char>>::empty()
            } else {
                seq![p + ".trashed_at: invalid RFC3339 timestamp"@]
            },
            None => Seq::<Seq<char>>::empty(),
        }
    } else if r.trashed_at is Some {
        seq![p + ".trashed_at: unsupported before schema v8"@]
    } else {
        Seq::<Seq<char>>::empty()
    }
}

/// The problems of one exported receipt, in the order they are reported.
pub open spec fn export_receipt_errors(r: ExportReceiptV7, index: nat, schema: i32) -> Seq<
    Seq<char>,
> {
    let p = receipt_prefix(index);
    receipt_status_errors(r, p) + receipt_pair_errors(r, p) + receipt_content_errors(r, p)
        + receipt_currency_errors(r, p) + receipt_date_errors(r, p) + receipt_trash_errors(
        r,
        p,
        schema,
    )
}

/// The problems of the first `n` exported receipts.
pub open spec fn export_receipts_errors_upto(rs: Seq<ExportReceiptV7>, n: nat, schema: i32) -> Seq<
    Seq<char>,
>
    decreases n,
{
    if n == 0 || n > rs.len() {
        Seq::empty()
    } else {
        export_receipts_errors_upto(rs, (n - 1) as nat, schema) + export_receipt_errors(
            rs[n - 1],
            (n - 1) as nat,
            schema,
        )
    }
}

/// Every problem of the exported receipts; none are checked before the
/// schema version that introduced receipts.
pub open spec fn export_receipts_errors(rs: Seq<ExportReceiptV7>, schema: i32) -> Seq<Seq<char>> {
    if schema < TRIP_EXPORT_SCHEMA_VERSION_V7 {
        Seq::empty()
    } else {
        export_receipts_errors_upto(rs, rs.len(), schema)
    }
}

fn push_receipt_prefix(out: &mut Vec<char>, index: usize)
    ensures
        final(out)@ == old(out)@ + receipt_prefix(index as nat),
{
    push_str(out, "receipts[");
    push_nat_text(out, index as u64);
    push_str(out, "]");
    assert(final(out)@ =~= old(out)@ + receipt_prefix(index as nat));
}

fn push_prefixed_line(lines: &mut Vec<String>, index: usize, middle: &str, tail: &str)
    ensures
        strings_view(final(lines)@) == strings_view(old(lines)@).push(
            receipt_prefix(index as nat) + middle@ + tail@,
        ),
{
    let mut v: Vec<char> = Vec::new();
    push_receipt_prefix(&mut v, index);
    push_str(&mut v, middle);
    push_str(&mut v, tail);
    assert(v@ =~= receipt_prefix(index as nat) + middle@ + tail@);
    push_line(lines, v.as_slice());
}

fn push_status_errors(lines: &mut Vec<String>, r: &ExportReceiptV7, index: usize)
    ensures
        strings_view(final(lines)@) == strings_view(old(lines)@) + receipt_status_errors(
            *r,
            receipt_prefix(index as nat),
        ),
{
    match validate_receipt_status(r.status.as_str()) {
        Err(e) => {
            let m = e.message();
            push_prefixed_line(lines, index, ".status: ", m.as_str());
        },
        Ok(()) => {},
    }
    assert(strings_view(lines@) =~= strings_view(old(lines)@) + receipt_status_errors(
        *r,
        receipt_prefix(index as nat),
    ));
}

fn push_pair_errors(lines: &mut Vec<String>, r: &ExportReceiptV7, index: usize)
    ensures
        strings_view(final(lines)@) == strings_view(old(lines)@) + receipt_pair_errors(
            *r,
            receipt_prefix(index as nat),
        ),
{
    match validate_receipt_amount_currency_pair(r.amount, &r.currency) {
        Err(e) => {
            let m = e.message();
            push_prefixed_line(lines, index, ": ", m.as_str());
        },
        Ok(()) => {},
    }
    assert(strings_view(lines@) =~= strings_view(old(lines)@) + receipt_pair_errors(
        *r,
        receipt_prefix(index as nat),
    ));
}

fn push_content_errors(lines: &mut Vec<String>, r: &ExportReceiptV7, index: usize)
    ensures
        strings_view(final(lines)@) == strings_view(old(lines)@) + receipt_content_errors(
            *r,
            receipt_prefix(index as nat),
        ),
{
    if r.amount.is_none() && r.memo.is_none() {
        push_prefixed_line(lines, index, ": memo and/or amount required", "");
        proof {
            reveal_strlit("");
        }
        assert(": memo and/or amount required"@ + ""@ =~= ": memo and/or amount required"@);
    }
    assert(strings_view(lines@) =~= strings_view(old(lines)@) + receipt_content_errors(
        *r,
        receipt_prefix(index as nat),
    ));
}

fn push_currency_errors(lines: &mut Vec<String>, r: &ExportReceiptV7, index: usize)
    ensures
        strings_view(final(lines)@) == strings_view(old(lines)@) + receipt_currency_errors(
            *r,
            receipt_prefix(index as nat),
        ),
{
    match &r.currency {
        Some(c) => match validate_currency_code(c.as_str()) {
            Err(e) => {
                let m = e.message();
                push_prefixed_line(lines, index, ".currency: ", m.as_str());
            },
            Ok(_) => {},
        },
        None => {},
    }
    assert(strings_view(lines@) =~= strings_view(old(lines)@) + receipt_currency_errors(
        *r,
        receipt_prefix(index as nat),
    ));
}

fn push_date_errors(lines: &mut Vec<String>, r: &ExportReceiptV7, index: usize)
    ensures
        strings_view(final(lines)@) == strings_view(old(lines)@) + receipt_date_errors(
            *r,
            receipt_prefix(index as nat),
        ),
{
    match &r.occurred_date {
        Some(d) => match validate_expense_date(d.as_str()) {
            Err(e) => {
                let m = e.message();
                push_prefixed_line(lines, index, ".occurred_date: ", m.as_str());
            },
            Ok(()) => {},
        },
        None => {},
    }
    assert(strings_view(lines@) =~= strings_view(old(lines)@) + receipt_date_errors(
        *r,
        receipt_prefix(index as nat),
    ));
}

fn push_trash_errors(lines: &mut Vec<String>, r: &ExportReceiptV7, index: usize, schema: i32)
    ensures
        strings_view(final(lines)@) == strings_view(old(lines)@) + receipt_trash_errors(
            *r,
            receipt_prefix(index as nat),
            schema,
        ),
{
    proof {
        reveal_strlit("");
    }
    if schema >= TRIP_EXPORT_SCHEMA_VERSION {
        match &r.trashed_at {
            Some(ts) => {
                if !is_rfc3339(ts.as_str()) {
                    push_prefixed_line(lines, index, ".trashed_at: invalid RFC3339 timestamp", "");
                    assert(".trashed_at: invalid RFC3339 timestamp"@ + ""@
                        =~= ".trashed_at: invalid RFC3339 timestamp"@);
                }
            },
            None => {},
        }
    } else if r.trashed_at.is_some() {
        push_prefixed_line(lines, index, ".trashed_at: unsupported before schema v8", "");
        assert(".trashed_at: unsupported before schema v8"@ + ""@
            =~= ".trashed_at: unsupported before schema v8"@);
    }
    assert(strings_view(lines@) =~= strings_view(old(lines)@) + receipt_trash_errors(
        *r,
        receipt_prefix(index as nat),
        schema,
    ));
}

fn collect_one_receipt_errors(lines: &mut Vec<String>, r: &ExportReceiptV7, index: usize, schema: i32)
    ensures
        strings_view(final(lines)@) == strings_view(old(lines)@) + export_receipt_errors(
            *r,
            index as nat,
            schema,
        ),
{
    push_status_errors(lines, r, index);
    push_pair_errors(lines, r, index);
    push_content_errors(lines, r, index);
    push_currency_errors(lines, r, index);
    push_date_errors(lines, r, index);
    push_trash_errors(lines, r, index, schema);
    assert(strings_view(lines@) =~= strings_view(old(lines)@) + export_receipt_errors(
        *r,
        index as nat,
        schema,
    ));
}

/// Every problem of the receipts of an export read with schema version
/// `effective_schema`, one message per problem.
pub fn collect_export_receipt_validation_errors(
    receipts: &[ExportReceiptV7],
    effective_schema: i32,
) -> (errors: Vec<String>)
    ensures
        strings_view(errors@) == export_receipts_errors(receipts@, effective_schema),
{
    let mut errors: Vec<String> = Vec::new();
    if effective_schema < TRIP_EXPORT_SCHEMA_VERSION_V7 {
        assert(strings_view(errors@) =~= Seq::<Seq<char>>::empty());
        return errors;
    }
    let n = receipts.len();
    let mut i: usize = 0;
    while i < n
        invariant
            n == receipts@.len(),
            i <= n,
            strings_view(errors@) == export_receipts_errors_upto(
                receipts@,
                i as nat,
                effective_schema,
            ),
        decreases n - i,
    {
        collect_one_receipt_errors(&mut errors, &receipts[i], i, effective_schema);
        i = i + 1;
    }
    errors
}

} // verus!
