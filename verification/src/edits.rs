//! Partial updates of trips, itinerary items, checklist items and expenses:
//! a request names the fields to change; the others keep their values.

use vstd::prelude::*;
use crate::calendar::{validate_expense_date, validate_expense_date_opt, ymd_date_text};
use crate::models::{ChecklistItem, Expense, ItineraryItem, Trip};
use crate::money::{
    amount_for_currency_result, currency_code_result, parse_amount_for_currency,
    validate_currency_code, MoneyError,
};
use crate::schedule::{hhmm_result, parse_time_hhmm, TimeError};
use crate::summary::{opt_string_view, opt_view};

verus! {

/// An update that names no field.
#[derive(Clone, Copy, Debug, PartialEq, Eq, Structural)]
pub enum EmptyUpdate {
    Trip,
    Itinerary,
    Checklist,
    Expense,
}

impl EmptyUpdate {
    /// The message shown to the user.
    pub fn message(&self) -> (s: &'static str)
        ensures
            s@ == match *self {
                EmptyUpdate::Trip => "更新する項目を1つ以上指定してください (--name, --start, --end)"@,
                EmptyUpdate::Itinerary =>
                    "更新する項目を1つ以上指定してください (--day, --title, --note, --time, --order, --duration, --travel)"@,
                EmptyUpdate::Checklist => "更新する項目を1つ以上指定してください (--title, --sort-order)"@,
                EmptyUpdate::Expense =>
                    "更新する項目を1つ以上指定してください (--title, --amount, --currency, --paid-by-name, --expense-date, --note)"@,
            },
    {
        match *self {
            EmptyUpdate::Trip => "更新する項目を1つ以上指定してください (--name, --start, --end)",
            EmptyUpdate::Itinerary =>
                "更新する項目を1つ以上指定してください (--day, --title, --note, --time, --order, --duration, --travel)",
            EmptyUpdate::Checklist => "更新する項目を1つ以上指定してください (--title, --sort-order)",
            EmptyUpdate::Expense =>
                "更新する項目を1つ以上指定してください (--title, --amount, --currency, --paid-by-name, --expense-date, --note)",
        }
    }
}

pub open spec fn some_view(o: Option<&str>, keep: Option<String>) -> Option<Seq<char>> {
    match o {
        Some(s) => Some(s@),
        None => opt_string_view(keep),
    }
}

/// The fields of a trip to change.
pub struct TripUpdate<'a> {
    pub name: Option<&'a str>,
    pub start: Option<&'a str>,
    pub end: Option<&'a str>,
}

/// A trip update must name a field.
pub fn check_trip_update(u: &TripUpdate) -> (r: Result<(), EmptyUpdate>)
    ensures
        r is Err <==> (u.name is None && u.start is None && u.end is None),
        r matches Err(e) ==> e == EmptyUpdate::Trip,
{
    if u.name.is_none() && u.start.is_none() && u.end.is_none() {
        Err(EmptyUpdate::Trip)
    } else {
        Ok(())
    }
}

/// The trip after the update: each named field replaced, the rest kept.
pub fn apply_trip_update(trip: &Trip, u: &TripUpdate) -> (t: Trip)
    ensures
        t.id == trip.id,
        t.name@ == match u.name {
            Some(n) => n@,
            None => trip.name@,
        },
        opt_string_view(t.start_date) == some_view(u.start, trip.start_date),
        opt_string_view(t.end_date) == some_view(u.end, trip.end_date),
        t.summary == trip.summary,
        t.created_at == trip.created_at,
        t.updated_at == trip.updated_at,
{
    let name = match u.name {
        Some(n) => n.to_owned(),
        None => trip.name.clone(),
    };
    let start_date = match u.start {
        Some(s) => Some(s.to_owned()),
        None => trip.start_date.clone(),
    };
    let end_date = match u.end {
        Some(e) => Some(e.to_owned()),
        None => trip.end_date.clone(),
    };
    Trip {
        id: trip.id,
        name,
        start_date,
        end_date,
        summary: trip.summary.clone(),
        created_at: trip.created_at.clone(),
        updated_at: trip.updated_at.clone(),
    }
}

/// The fields of an itinerary item to change; `note` and `start_time` may
/// be set to a value or cleared.
pub struct ItineraryUpdate<'a> {
    pub day: Option<i64>,
    pub title: Option<&'a str>,
    pub note: Option<Option<&'a str>>,
    pub start_time: Option<Option<&'a str>>,
    pub sort_order: Option<i64>,
    pub duration_minutes: Option<i64>,
    pub travel_minutes: Option<i64>,
}

pub open spec fn itinerary_update_is_empty(u: ItineraryUpdate) -> bool {
    u.day is None && u.title is None && u.note is None && u.start_time is None && u.sort_order
        is None && u.duration_minutes is None && u.travel_minutes is None
}

/// An itinerary update must name a field.
pub fn check_itinerary_update(u: &ItineraryUpdate) -> (r: Result<(), EmptyUpdate>)
    ensures
        r is Err <==> itinerary_update_is_empty(*u),
        r matches Err(e) ==> e == EmptyUpdate::Itinerary,
{
    if u.day.is_none() && u.title.is_none() && u.note.is_none() && u.start_time.is_none()
        && u.sort_order.is_none() && u.duration_minutes.is_none() && u.travel_minutes.is_none() {
        Err(EmptyUpdate::Itinerary)
    } else {
        Ok(())
    }
}

pub open spec fn opt_opt_replace(o: Option<Option<&str>>, keep: Option<String>) -> Option<Seq<char>> {
    match o {
        Some(x) => opt_view(x),
        None => opt_string_view(keep),
    }
}

/// The refusal of an itinerary update: a new start time must be `HH:MM`.
pub open spec fn itinerary_update_fault(u: ItineraryUpdate) -> Option<TimeError> {
    match u.start_time {
        Some(Some(t)) => match hhmm_result(t@) {
            Err(e) => Some(e),
            Ok(_) => None,
        },
        _ => None,
    }
}

/// The item after the update: each named field replaced, the rest kept; a
/// new start time is checked first.
pub fn apply_itinerary_update(item: &ItineraryItem, u: &ItineraryUpdate) -> (r: Result<
    ItineraryItem,
    TimeError,
>)
    ensures
        match r {
            Err(e) => itinerary_update_fault(*u) == Some(e),
            Ok(n) => {
                &&& itinerary_update_fault(*u) is None
                &&& n.id == item.id && n.trip_id == item.trip_id
                &&& n.day == match u.day {
                    Some(d) => d,
                    None => item.day,
                }
                &&& n.title@ == match u.title {
                    Some(t) => t@,
                    None => item.title@,
                }
                &&& opt_string_view(n.note) == opt_opt_replace(u.note, item.note)
                &&& opt_string_view(n.start_time) == opt_opt_replace(u.start_time, item.start_time)
                &&& n.sort_order == match u.sort_order {
                    Some(o) => o,
                    None => item.sort_order,
                }
                &&& n.duration_minutes == match u.duration_minutes {
                    Some(d) => Some(d),
                    None => item.duration_minutes,
                }
                &&& n.travel_minutes == match u.travel_minutes {
                    Some(t) => Some(t),
                    None => item.travel_minutes,
                }
                &&& n.location == item.location && n.category == item.category
                &&& n.created_at == item.created_at && n.updated_at == item.updated_at
            },
        },
{
    match u.start_time {
        Some(Some(t)) => match parse_time_hhmm(t) {
            Err(e) => return Err(e),
            Ok(_) => {},
        },
        _ => {},
    }
    let note = match u.note {
        Some(n) => match n {
            Some(s) => Some(s.to_owned()),
            None => None,
        },
        None => item.note.clone(),
    };
    let start_time = match u.start_time {
        Some(t) => match t {
            Some(s) => Some(s.to_owned()),
            None => None,
        },
        None => item.start_time.clone(),
    };
    Ok(ItineraryItem {
        id: item.id,
        trip_id: item.trip_id,
        day: match u.day {
            Some(d) => d,
            None => item.day,
        },
        title: match u.title {
            Some(t) => t.to_owned(),
            None => item.title.clone(),
        },
        note,
        start_time,
        sort_order: match u.sort_order {
            Some(o) => o,
            None => item.sort_order,
        },
        duration_minutes: match u.duration_minutes {
            Some(d) => Some(d),
            None => item.duration_minutes,
        },
        travel_minutes: match u.travel_minutes {
            Some(t) => Some(t),
            None => item.travel_minutes,
        },
        location: item.location.clone(),
        category: item.category,
        created_at: item.created_at.clone(),
        updated_at: item.updated_at.clone(),
    })
}

/// The sort order of a new itinerary item (0 unless given), after checking
/// that a given start time is `HH:MM`.
pub fn prepare_new_itinerary_item(start_time: Option<&str>, sort_order: Option<i64>) -> (r: Result<
    i64,
    TimeError,
>)
    ensures
        match r {
            Ok(o) => (start_time matches Some(t) ==> hhmm_result(t@) is Ok) && o == match sort_order {
                Some(x) => x,
                None => 0,
            },
            Err(e) => start_time matches Some(t) && hhmm_result(t@) == Err::<(int, int), TimeError>(
                e,
            ),
        },
{
    match start_time {
        Some(t) => match parse_time_hhmm(t) {
            Err(e) => return Err(e),
            Ok(_) => {},
        },
        None => {},
    }
    match sort_order {
        Some(x) => Ok(x),
        None => Ok(0),
    }
}

/// The fields of a checklist item to change.
pub struct ChecklistUpdate<'a> {
    pub title: Option<&'a str>,
    pub sort_order: Option<i64>,
}

/// A checklist update must name a field.
pub fn check_checklist_update(u: &ChecklistUpdate) -> (r: Result<(), EmptyUpdate>)
    ensures
        r is Err <==> (u.title is None && u.sort_order is None),
        r matches Err(e) ==> e == EmptyUpdate::Checklist,
{
    if u.title.is_none() && u.sort_order.is_none() {
        Err(EmptyUpdate::Checklist)
    } else {
        Ok(())
    }
}

/// The checklist item after the update.
pub fn apply_checklist_update(item: &ChecklistItem, u: &ChecklistUpdate) -> (n: ChecklistItem)
    ensures
        n.id == item.id && n.trip_id == item.trip_id && n.is_done == item.is_done,
        n.title@ == match u.title {
            Some(t) => t@,
            None => item.title@,
        },
        n.sort_order == match u.sort_order {
            Some(o) => o,
            None => item.sort_order,
        },
        n.created_at == item.created_at && n.updated_at == item.updated_at,
{
    ChecklistItem {
        id: item.id,
        trip_id: item.trip_id,
        title: match u.title {
            Some(t) => t.to_owned(),
            None => item.title.clone(),
        },
        is_done: item.is_done,
        sort_order: match u.sort_order {
            Some(o) => o,
            None => item.sort_order,
        },
        created_at: item.created_at.clone(),
        updated_at: item.updated_at.clone(),
    }
}

/// The fields of an expense to change; the amount is read in the new
/// currency when one is given, else in the stored one.
pub struct ExpenseUpdate<'a> {
    pub title: Option<&'a str>,
    pub amount_input: Option<&'a str>,
    pub currency_input: Option<&'a str>,
    pub paid_by_name: Option<&'a str>,
    pub expense_date: Option<&'a str>,
    pub note: Option<&'a str>,
}

pub open spec fn expense_update_is_empty(u: ExpenseUpdate) -> bool {
    u.title is None && u.amount_input is None && u.currency_input is None && u.paid_by_name
        is None && u.expense_date is None && u.note is None
}

/// An expense update must name a field.
pub fn check_expense_update(u: &ExpenseUpdate) -> (r: Result<(), EmptyUpdate>)
    ensures
        r is Err <==> expense_update_is_empty(*u),
        r matches Err(e) ==> e == EmptyUpdate::Expense,
{
    if u.title.is_none() && u.amount_input.is_none() && u.currency_input.is_none()
        && u.paid_by_name.is_none() && u.expense_date.is_none() && u.note.is_none() {
        Err(EmptyUpdate::Expense)
    } else {
        Ok(())
    }
}

/// The currency the amount of an expense update is read in.
pub open spec fn expense_update_currency(e: Expense, u: ExpenseUpdate) -> Result<
    Seq<char>,
    MoneyError,
> {
    match u.currency_input {
        Some(c) => currency_code_result(c@),
        None => Ok(e.currency@),
    }
}

/// What `apply_expense_update` decides: a new date is checked, then a new
/// currency, then a new amount.
pub open spec fn expense_update_result(e: Expense, u: ExpenseUpdate) -> Result<
    (int, Seq<char>),
    MoneyError,
> {
    if u.expense_date matches Some(d) && ymd_date_text(d@) is None {
        Err(MoneyError::InvalidDate)
    } else {
        match expense_update_currency(e, u) {
            Err(err) => Err(err),
            Ok(code) => {
                let amount = match u.amount_input {
                    Some(a) => amount_for_currency_result(a@, code),
                    None => Ok(e.amount as int),
                };
                match amount {
                    Err(err) => Err(err),
                    Ok(x) => Ok((x, if u.currency_input is Some { code } else { e.currency@ })),
                }
            },
        }
    }
}

/// The expense after the update.
pub fn apply_expense_update(e: &Expense, u: &ExpenseUpdate) -> (r: Result<Expense, MoneyError>)
    ensures
        match r {
            Err(err) => expense_update_result(*e, *u) == Err::<(int, Seq<char>), MoneyError>(err),
            Ok(n) => {
                &&& expense_update_result(*e, *u) == Ok::<(int, Seq<char>), MoneyError>(
                    (n.amount as int, n.currency@),
                )
                &&& n.id == e.id && n.itinerary_id == e.itinerary_id
                &&& opt_string_view(n.title) == some_view(u.title, e.title)
                &&& opt_string_view(n.note) == some_view(u.note, e.note)
                &&& opt_string_view(n.paid_by_name) == some_view(u.paid_by_name, e.paid_by_name)
                &&& opt_string_view(n.expense_date) == some_view(u.expense_date, e.expense_date)
                &&& n.sort_order == e.sort_order
                &&& n.created_at == e.created_at && n.updated_at == e.updated_at
            },
        },
{
    match u.expense_date {
        Some(d) => match validate_expense_date(d) {
            Err(err) => return Err(err),
            Ok(()) => {},
        },
        None => {},
    }
    let currency = match u.currency_input {
        Some(code) => match validate_currency_code(code) {
            Ok(c) => c,
            Err(err) => return Err(err),
        },
        None => e.currency.clone(),
    };
    let amount = match u.amount_input {
        Some(input) => match parse_amount_for_currency(input, currency.as_str()) {
            Ok(a) => a,
            Err(err) => return Err(err),
        },
        None => e.amount,
    };
    let new_currency = if u.currency_input.is_some() {
        currency
    } else {
        e.currency.clone()
    };
    Ok(Expense {
        id: e.id,
        itinerary_id: e.itinerary_id,
        title: match u.title {
            Some(t) => Some(t.to_owned()),
            None => e.title.clone(),
        },
        amount,
        currency: new_currency,
        paid_by_name: match u.paid_by_name {
            Some(p) => Some(p.to_owned()),
            None => e.paid_by_name.clone(),
        },
        expense_date: match u.expense_date {
            Some(d) => Some(d.to_owned()),
            None => e.expense_date.clone(),
        },
        note: match u.note {
            Some(t) => Some(t.to_owned()),
            None => e.note.clone(),
        },
        sort_order: e.sort_order,
        created_at: e.created_at.clone(),
        updated_at: e.updated_at.clone(),
    })
}

/// What adding an expense stores from what the user typed: the currency
/// code normalized and the amount in minor units of that currency; a given
/// date must be a calendar date. Checked in that order.
pub open spec fn new_expense_result(
    amount_input: Seq<char>,
    currency_input: Seq<char>,
    expense_date: Option<Seq<char>>,
) -> Result<(int, Seq<char>), MoneyError> {
    match currency_code_result(currency_input) {
        Err(e) => Err(e),
        Ok(code) => match amount_for_currency_result(amount_input, code) {
            Err(e) => Err(e),
            Ok(a) => if expense_date matches Some(d) && ymd_date_text(d) is None {
                Err(MoneyError::InvalidDate)
            } else {
                Ok((a, code))
            },
        },
    }
}

/// Checks a new expense and returns its amount in minor units and its
/// normalized currency code.
pub fn prepare_new_expense(
    amount_input: &str,
    currency_input: &str,
    expense_date: Option<&str>,
) -> (r: Result<(i64, String), MoneyError>)
    ensures
        match r {
            Ok((a, c)) => new_expense_result(amount_input@, currency_input@, opt_view(expense_date))
                == Ok::<(int, Seq<char>), MoneyError>((a as int, c@)),
            Err(e) => new_expense_result(amount_input@, currency_input@, opt_view(expense_date))
                == Err::<(int, Seq<char>), MoneyError>(e),
        },
{
    let currency = match validate_currency_code(currency_input) {
        Ok(c) => c,
        Err(e) => return Err(e),
    };
    let amount = match parse_amount_for_currency(amount_input, currency.as_str()) {
        Ok(a) => a,
        Err(e) => return Err(e),
    };
    match expense_date {
        Some(d) => match validate_expense_date(d) {
            Ok(()) => {},
            Err(e) => return Err(e),
        },
        None => {},
    }
    Ok((amount, currency))
}

/// What importing an expense stores of its currency: the code normalized,
/// provided the date, when given, is a calendar date.
pub open spec fn imported_expense_currency(
    currency: Seq<char>,
    expense_date: Option<Seq<char>>,
) -> Result<Seq<char>, MoneyError> {
    match currency_code_result(currency) {
        Err(e) => Err(e),
        Ok(code) => if expense_date matches Some(d) && ymd_date_text(d) is None {
            Err(MoneyError::InvalidDate)
        } else {
            Ok(code)
        },
    }
}

/// Checks an imported expense and returns its normalized currency code.
pub fn prepare_imported_expense(currency: &str, expense_date: &Option<String>) -> (r: Result<
    String,
    MoneyError,
>)
    ensures
        match r {
            Ok(c) => imported_expense_currency(currency@, opt_string_view(*expense_date))
                == Ok::<Seq<char>, MoneyError>(c@),
            Err(e) => imported_expense_currency(currency@, opt_string_view(*expense_date))
                == Err::<Seq<char>, MoneyError>(e),
        },
{
    let code = match validate_currency_code(currency) {
        Ok(c) => c,
        Err(e) => return Err(e),
    };
    match validate_expense_date_opt(expense_date) {
        Ok(()) => Ok(code),
        Err(e) => Err(e),
    }
}

} // verus!
