use caglla::edits::{
    apply_checklist_update, apply_expense_update, apply_itinerary_update, apply_trip_update,
    check_checklist_update, check_expense_update, check_itinerary_update, check_trip_update,
    prepare_new_itinerary_item, ChecklistUpdate, EmptyUpdate, ExpenseUpdate, ItineraryUpdate,
    TripUpdate,
};
use caglla::models::{ChecklistItem, Expense, ItineraryItem, Trip};
use caglla::money::MoneyError;
use caglla::schedule::TimeError;

fn trip() -> Trip {
    Trip {
        id: 1,
        name: "沖縄旅行".to_string(),
        start_date: None,
        end_date: None,
        summary: None,
        created_at: "c".to_string(),
        updated_at: "u".to_string(),
    }
}

fn shuri() -> ItineraryItem {
    ItineraryItem {
        id: 1,
        trip_id: 1,
        day: 1,
        title: "首里城".to_string(),
        note: None,
        start_time: None,
        sort_order: 0,
        duration_minutes: None,
        travel_minutes: None,
        location: None,
        category: None,
        created_at: String::new(),
        updated_at: String::new(),
    }
}

fn no_change<'a>() -> ItineraryUpdate<'a> {
    ItineraryUpdate {
        day: None,
        title: None,
        note: None,
        start_time: None,
        sort_order: None,
        duration_minutes: None,
        travel_minutes: None,
    }
}

#[test]
fn test_update_trip() {
    let u = TripUpdate { name: Some("沖縄・瀬底旅行"), start: Some("2025-06-01"), end: Some("2025-06-07") };
    assert!(check_trip_update(&u).is_ok());
    let t = apply_trip_update(&trip(), &u);
    assert_eq!(t.name, "沖縄・瀬底旅行");
    assert_eq!(t.start_date.as_deref(), Some("2025-06-01"));
    assert_eq!(t.end_date.as_deref(), Some("2025-06-07"));
}

#[test]
fn trip_update_keeps_unnamed_fields_and_needs_one() {
    let empty = TripUpdate { name: None, start: None, end: None };
    assert_eq!(check_trip_update(&empty), Err(EmptyUpdate::Trip));
    let t = apply_trip_update(&trip(), &TripUpdate { name: None, start: Some("2025-06-01"), end: None });
    assert_eq!(t.name, "沖縄旅行");
    assert_eq!(t.end_date, None);
    assert!(EmptyUpdate::Trip.message().contains("--name"));
}

#[test]
fn test_add_itinerary_item_with_start_time() {
    assert_eq!(prepare_new_itinerary_item(Some("09:00"), None), Ok(0));
}

#[test]
fn test_add_itinerary_item_without_start_time() {
    assert_eq!(prepare_new_itinerary_item(None, Some(99)), Ok(99));
}

#[test]
fn new_itinerary_item_with_bad_time_is_refused() {
    assert_eq!(prepare_new_itinerary_item(Some("9:00"), None), Err(TimeError::Format));
    assert_eq!(prepare_new_itinerary_item(Some("24:00"), Some(1)), Err(TimeError::Invalid));
}

#[test]
fn test_update_itinerary_item() {
    let u = ItineraryUpdate { day: Some(2), title: Some("美ら海水族館"), note: Some(Some("終日")), ..no_change() };
    assert!(check_itinerary_update(&u).is_ok());
    let item = apply_itinerary_update(&shuri(), &u).unwrap();
    assert_eq!(item.day, 2);
    assert_eq!(item.title, "美ら海水族館");
    assert_eq!(item.note.as_deref(), Some("終日"));
}

#[test]
fn test_update_itinerary_item_start_time_and_sort_order() {
    let u = ItineraryUpdate { start_time: Some(Some("09:30")), sort_order: Some(5), ..no_change() };
    let item = apply_itinerary_update(&shuri(), &u).unwrap();
    assert_eq!(item.start_time.as_deref(), Some("09:30"));
    assert_eq!(item.sort_order, 5);
}

#[test]
fn test_update_itinerary_item_duration_and_travel() {
    let u = ItineraryUpdate { duration_minutes: Some(90), travel_minutes: Some(20), ..no_change() };
    let item = apply_itinerary_update(&shuri(), &u).unwrap();
    assert_eq!(item.duration_minutes, Some(90));
    assert_eq!(item.travel_minutes, Some(20));
}

#[test]
fn itinerary_update_rules() {
    assert_eq!(check_itinerary_update(&no_change()), Err(EmptyUpdate::Itinerary));
    let bad = ItineraryUpdate { start_time: Some(Some("25:00")), ..no_change() };
    assert_eq!(apply_itinerary_update(&shuri(), &bad).unwrap_err(), TimeError::Invalid);
    let mut with_note = shuri();
    with_note.note = Some("x".to_string());
    let cleared = apply_itinerary_update(&with_note, &ItineraryUpdate { note: Some(None), ..no_change() }).unwrap();
    assert_eq!(cleared.note, None);
}

#[test]
fn test_update_checklist_item() {
    let item = ChecklistItem {
        id: 1,
        trip_id: 1,
        title: "パスポート".to_string(),
        is_done: false,
        sort_order: 0,
        created_at: String::new(),
        updated_at: String::new(),
    };
    let u = ChecklistUpdate { title: Some("旅券"), sort_order: Some(5) };
    assert!(check_checklist_update(&u).is_ok());
    let n = apply_checklist_update(&item, &u);
    assert_eq!(n.title, "旅券");
    assert_eq!(n.sort_order, 5);
    assert_eq!(check_checklist_update(&ChecklistUpdate { title: None, sort_order: None }), Err(EmptyUpdate::Checklist));
}

#[test]
fn expense_update_reparses_amount_in_the_currency() {
    let e = Expense {
        id: 1,
        itinerary_id: 1,
        title: Some("昼食".to_string()),
        amount: 1500,
        currency: "JPY".to_string(),
        paid_by_name: None,
        expense_date: None,
        note: None,
        sort_order: 0,
        created_at: String::new(),
        updated_at: String::new(),
    };
    let none = ExpenseUpdate {
        title: None,
        amount_input: None,
        currency_input: None,
        paid_by_name: None,
        expense_date: None,
        note: None,
    };
    assert_eq!(check_expense_update(&none), Err(EmptyUpdate::Expense));
    let u = ExpenseUpdate { amount_input: Some("12.5"), currency_input: Some("usd"), ..none };
    let n = apply_expense_update(&e, &u).unwrap();
    assert_eq!(n.amount, 1250);
    assert_eq!(n.currency, "USD");
    assert_eq!(n.title.as_deref(), Some("昼食"));
    let bad = ExpenseUpdate { expense_date: Some("2026-02-30"), ..none };
    assert_eq!(apply_expense_update(&e, &bad).unwrap_err(), MoneyError::InvalidDate);
}

#[test]
fn test_add_itinerary_item() {
    assert_eq!(prepare_new_itinerary_item(None, None), Ok(0));
}
