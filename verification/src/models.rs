//! The records the planner keeps: trips, days, itinerary items, checklist
//! items, expenses, estimates, receipts, notes and participants, and the
//! fixed set of itinerary categories.

use vstd::prelude::*;

verus! {

/// One trip.
#[derive(Clone, Debug)]
pub struct Trip {
    pub id: i64,
    pub name: String,
    pub start_date: Option<String>,
    pub end_date: Option<String>,
    pub summary: Option<String>,
    pub created_at: String,
    pub updated_at: String,
}

/// The categories an itinerary item may carry; only these are accepted.
#[derive(Clone, Copy, Debug, PartialEq, Eq, Structural, Hash)]
pub enum ItineraryCategory {
    Flight,
    Hotel,
    Restaurant,
    Activity,
    Transport,
    Shopping,
    Beach,
    Museum,
}

/// How a category is presented to people.
#[derive(Clone, Copy, Debug)]
pub struct CategoryDefinition {
    pub display_name: &'static str,
}

pub open spec fn category_key(c: ItineraryCategory) -> Seq<char> {
    match c {
        ItineraryCategory::Flight => "flight"@,
        ItineraryCategory::Hotel => "hotel"@,
        ItineraryCategory::Restaurant => "restaurant"@,
        ItineraryCategory::Activity => "activity"@,
        ItineraryCategory::Transport => "transport"@,
        ItineraryCategory::Shopping => "shopping"@,
        ItineraryCategory::Beach => "beach"@,
        ItineraryCategory::Museum => "museum"@,
    }
}

pub open spec fn category_display_name(c: ItineraryCategory) -> Seq<char> {
    match c {
        ItineraryCategory::Flight => "フライト"@,
        ItineraryCategory::Hotel => "宿泊"@,
        ItineraryCategory::Restaurant => "食事"@,
        ItineraryCategory::Activity => "アクティビティ"@,
        ItineraryCategory::Transport => "移動"@,
        ItineraryCategory::Shopping => "買い物"@,
        ItineraryCategory::Beach => "ビーチ"@,
        ItineraryCategory::Museum => "博物館"@,
    }
}

/// The category whose key is `s`, if any.
pub open spec fn category_from_key(s: Seq<char>) -> Option<ItineraryCategory> {
    if s == "flight"@ {
        Some(ItineraryCategory::Flight)
    } else if s == "hotel"@ {
        Some(ItineraryCategory::Hotel)
    } else if s == "restaurant"@ {
        Some(ItineraryCategory::Restaurant)
    } else if s == "activity"@ {
        Some(ItineraryCategory::Activity)
    } else if s == "transport"@ {
        Some(ItineraryCategory::Transport)
    } else if s == "shopping"@ {
        Some(ItineraryCategory::Shopping)
    } else if s == "beach"@ {
        Some(ItineraryCategory::Beach)
    } else if s == "museum"@ {
        Some(ItineraryCategory::Museum)
    } else {
        None
    }
}

impl ItineraryCategory {
    /// The lower-case key of the category, as stored and as typed on the command line.
    pub fn as_str(self) -> (s: &'static str)
        ensures
            s@ == category_key(self),
    {
        match self {
            ItineraryCategory::Flight => "flight",
            ItineraryCategory::Hotel => "hotel",
            ItineraryCategory::Restaurant => "restaurant",
            ItineraryCategory::Activity => "activity",
            ItineraryCategory::Transport => "transport",
            ItineraryCategory::Shopping => "shopping",
            ItineraryCategory::Beach => "beach",
            ItineraryCategory::Museum => "museum",
        }
    }

    /// The presentation of the category.
    pub fn definition(self) -> (d: CategoryDefinition)
        ensures
            d.display_name@ == category_display_name(self),
    {
        let name = match self {
            ItineraryCategory::Flight => "フライト",
            ItineraryCategory::Hotel => "宿泊",
            ItineraryCategory::Restaurant => "食事",
            ItineraryCategory::Activity => "アクティビティ",
            ItineraryCategory::Transport => "移動",
            ItineraryCategory::Shopping => "買い物",
            ItineraryCategory::Beach => "ビーチ",
            ItineraryCategory::Museum => "博物館",
        };
        CategoryDefinition { display_name: name }
    }

    /// Every category, in declaration order.
    pub fn all() -> (v: Vec<ItineraryCategory>)
        ensures
            v@ == seq![
                ItineraryCategory::Flight,
                ItineraryCategory::Hotel,
                ItineraryCategory::Restaurant,
                ItineraryCategory::Activity,
                ItineraryCategory::Transport,
                ItineraryCategory::Shopping,
                ItineraryCategory::Beach,
                ItineraryCategory::Museum,
            ],
    {
        let v = vec![
            ItineraryCategory::Flight,
            ItineraryCategory::Hotel,
            ItineraryCategory::Restaurant,
            ItineraryCategory::Activity,
            ItineraryCategory::Transport,
            ItineraryCategory::Shopping,
            ItineraryCategory::Beach,
            ItineraryCategory::Museum,
        ];
        v
    }
}

/// One itinerary item (an activity of a trip day).
#[derive(Clone, Debug)]
pub struct ItineraryItem {
    pub id: i64,
    pub trip_id: i64,
    pub day: i64,
    pub title: String,
    pub note: Option<String>,
    pub start_time: Option<String>,
    pub sort_order: i64,
    pub duration_minutes: Option<i64>,
    pub travel_minutes: Option<i64>,
    pub location: Option<String>,
    pub category: Option<ItineraryCategory>,
    pub created_at: String,
    pub updated_at: String,
}

/// One checklist item of a trip.
#[derive(Clone, Debug)]
pub struct ChecklistItem {
    pub id: i64,
    pub trip_id: i64,
    pub title: String,
    pub is_done: bool,
    pub sort_order: i64,
    pub created_at: String,
    pub updated_at: String,
}

/// A trip together with its itinerary, as exported.
#[derive(Clone, Debug)]
pub struct TripExport {
    pub trip: Trip,
    pub itinerary_items: Vec<ItineraryItem>,
}

/// One day of a trip.
#[derive(Clone, Debug)]
pub struct Day {
    pub id: i64,
    pub trip_id: i64,
    pub day_number: i64,
    pub title: String,
    pub summary: Option<String>,
    pub created_at: String,
    pub updated_at: String,
}

/// An actual expense, attached to an itinerary item; `amount` is in the
/// currency's minor unit.
#[derive(Clone, Debug)]
pub struct Expense {
    pub id: i64,
    pub itinerary_id: i64,
    pub title: Option<String>,
    pub amount: i64,
    pub currency: String,
    pub paid_by_name: Option<String>,
    pub expense_date: Option<String>,
    pub note: Option<String>,
    pub sort_order: i64,
    pub created_at: String,
    pub updated_at: String,
}

/// A planned cost, attached to an itinerary item.
#[derive(Clone, Debug)]
pub struct Estimate {
    pub id: i64,
    pub itinerary_id: i64,
    pub title: Option<String>,
    pub amount: i64,
    pub currency: String,
    pub note: Option<String>,
    pub sort_order: i64,
    pub created_at: String,
    pub updated_at: String,
}

/// A person registered for a trip.
#[derive(Clone, Debug)]
pub struct Participant {
    pub id: i64,
    pub trip_id: i64,
    pub name: String,
    pub is_self: bool,
    pub sort_order: i64,
    pub created_at: String,
    pub updated_at: String,
}

/// A receipt kept until it is sorted out; `amount` is in the currency's minor unit.
#[derive(Clone, Debug)]
pub struct Receipt {
    pub id: i64,
    pub trip_id: i64,
    pub day_id: Option<i64>,
    pub trashed_at: Option<String>,
    pub amount: Option<i64>,
    pub currency: Option<String>,
    pub occurred_date: Option<String>,
    pub memo: Option<String>,
    pub status: String,
    pub created_at: String,
    pub updated_at: String,
}

/// The day a receipt belongs to, in an export.
#[derive(Clone, Copy, Debug, PartialEq, Eq, Structural)]
pub struct ExportReceiptDayRef {
    pub day_number: i64,
}

/// A receipt as written in an export.
#[derive(Clone, Debug)]
pub struct ExportReceiptV7 {
    pub day_ref: Option<ExportReceiptDayRef>,
    pub trashed_at: Option<String>,
    pub amount: Option<i64>,
    pub currency: Option<String>,
    pub occurred_date: Option<String>,
    pub memo: Option<String>,
    pub status: String,
}

/// How an exported note refers to its itinerary item.
#[derive(Clone, Copy, Debug, PartialEq, Eq, Structural)]
pub struct ExportItineraryKey {
    pub day_number: i64,
    pub sort_order: i64,
}

/// What a note is attached to.
#[derive(Clone, Copy, Debug, PartialEq, Eq, Structural)]
pub enum NoteOwnerType {
    Trip,
    Day,
    Itinerary,
}

/// A free-form note attached to a trip, a day or an itinerary item.
#[derive(Clone, Debug)]
pub struct Note {
    pub id: i64,
    pub owner_type: NoteOwnerType,
    pub owner_id: i64,
    pub title: Option<String>,
    pub body: String,
    pub sort_order: i64,
}

/// A note as written in an export, by the kind of its owner.
#[derive(Clone, Debug)]
pub enum ExportNote {
    Trip { title: Option<String>, body: String },
    Day { day_number: i64, title: Option<String>, body: String },
    Itinerary { itinerary_key: ExportItineraryKey, title: Option<String>, body: String },
}

/// Export schema version from which receipts are part of an export.
pub const TRIP_EXPORT_SCHEMA_VERSION_V7: i32 = 7;

/// Current export schema version (receipts may carry `trashed_at`).
pub const TRIP_EXPORT_SCHEMA_VERSION: i32 = 8;

} // verus!

verus! {

/// Why a category key was refused.
#[derive(Clone, Debug)]
pub enum CategoryError {
    /// The text is none of the category keys; carries that text.
    Unknown(String),
}

impl CategoryError {
    /// The message shown to the user.
    pub fn message(&self) -> (s: String)
        ensures
            s@ == (match self {
                CategoryError::Unknown(t) => "不正なカテゴリです: "@ + t@
                    + ". 有効な値: flight, hotel, restaurant, activity, transport, shopping, beach, museum"@,
            }),
    {
        match self {
            CategoryError::Unknown(t) => {
                let mut v: Vec<char> = Vec::new();
                crate::text::push_str(&mut v, "不正なカテゴリです: ");
                crate::text::push_str(&mut v, t.as_str());
                crate::text::push_str(
                    &mut v,
                    ". 有効な値: flight, hotel, restaurant, activity, transport, shopping, beach, museum",
                );
                crate::text::string_from_chars(v.as_slice())
            },
        }
    }
}

/// Reads a category from its key; `none` and every other text are refused.
pub fn parse_itinerary_category(s: &str) -> (r: Result<ItineraryCategory, CategoryError>)
    ensures
        match r {
            Ok(c) => category_from_key(s@) == Some(c),
            Err(CategoryError::Unknown(t)) => category_from_key(s@) is None && t@ == s@,
        },
{
    if crate::text::str_eq(s, "flight") {
        Ok(ItineraryCategory::Flight)
    } else if crate::text::str_eq(s, "hotel") {
        Ok(ItineraryCategory::Hotel)
    } else if crate::text::str_eq(s, "restaurant") {
        Ok(ItineraryCategory::Restaurant)
    } else if crate::text::str_eq(s, "activity") {
        Ok(ItineraryCategory::Activity)
    } else if crate::text::str_eq(s, "transport") {
        Ok(ItineraryCategory::Transport)
    } else if crate::text::str_eq(s, "shopping") {
        Ok(ItineraryCategory::Shopping)
    } else if crate::text::str_eq(s, "beach") {
        Ok(ItineraryCategory::Beach)
    } else if crate::text::str_eq(s, "museum") {
        Ok(ItineraryCategory::Museum)
    } else {
        Err(CategoryError::Unknown(s.to_owned()))
    }
}

/// Every category's key reads back as that category.
pub proof fn lemma_category_key_round_trip(c: ItineraryCategory)
    ensures
        category_from_key(category_key(c)) == Some(c),
{
    reveal_strlit("flight");
    reveal_strlit("hotel");
    reveal_strlit("restaurant");
    reveal_strlit("activity");
    reveal_strlit("transport");
    reveal_strlit("shopping");
    reveal_strlit("beach");
    reveal_strlit("museum");
    let k = category_key(c);
    assert(k[0] == 'f' || k[0] == 'h' || k[0] == 'r' || k[0] == 'a' || k[0] == 't' || k[0] == 's'
        || k[0] == 'b' || k[0] == 'm');
    if k != "flight"@ {
        assert(k[0] != 'f' || k.len() != 6 || c != ItineraryCategory::Flight);
    }
}

} // verus!
