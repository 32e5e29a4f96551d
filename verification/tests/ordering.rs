use caglla::models::{
    ChecklistItem, Expense, ExportItineraryKey, ExportNote, ItineraryItem, Note, NoteOwnerType, Trip,
};
use caglla::ordering::{
    key_before, sort_checklist_items, sort_expenses, sort_export_notes_for_travel_book,
    sort_itinerary_items, sort_itinerary_items_for_markdown, sort_notes, sort_trips, SortKey,
};
use caglla::services::{
    ChecklistListServiceResult, ItineraryListServiceResult, NoteListServiceResult,
    TripListServiceResult,
};

fn it(id: i64, day: i64, title: &str, order: i64, start: Option<&str>) -> ItineraryItem {
    ItineraryItem {
        id,
        trip_id: 1,
        day,
        title: title.to_string(),
        note: None,
        start_time: start.map(|s| s.to_string()),
        sort_order: order,
        duration_minutes: None,
        travel_minutes: None,
        location: None,
        category: None,
        created_at: String::new(),
        updated_at: String::new(),
    }
}

fn check(id: i64, title: &str, order: i64, done: bool) -> ChecklistItem {
    ChecklistItem {
        id,
        trip_id: 1,
        title: title.to_string(),
        is_done: done,
        sort_order: order,
        created_at: String::new(),
        updated_at: String::new(),
    }
}

fn note(id: i64, order: i64, body: &str) -> Note {
    Note {
        id,
        owner_type: NoteOwnerType::Trip,
        owner_id: 1,
        title: None,
        body: body.to_string(),
        sort_order: order,
    }
}

#[test]
fn service_preserves_sequence_first_ordering() {
    let mut items = vec![
        it(1, 1, "Second", 2000, None),
        it(2, 1, "First", 1000, None),
        it(3, 2, "Day2", 1000, None),
    ];
    sort_itinerary_items(&mut items);
    let result = ItineraryListServiceResult { items };
    assert_eq!(result.items.len(), 3);
    assert_eq!(result.items[0].day, 1);
    assert_eq!(result.items[0].title, "First");
    assert_eq!(result.items[1].day, 1);
    assert_eq!(result.items[1].title, "Second");
    assert_eq!(result.items[2].day, 2);
    assert_eq!(result.items[2].title, "Day2");
}

#[test]
fn test_list_itinerary_items_sorted_by_day_and_time() {
    let mut items = vec![
        it(1, 1, "昼食", 0, Some("12:30")),
        it(2, 1, "首里城", 0, Some("09:00")),
        it(3, 1, "ホテル", 99, None),
        it(4, 2, "2日目", 0, Some("10:00")),
    ];
    sort_itinerary_items(&mut items);
    assert_eq!(items.len(), 4);
    assert_eq!(items[0].title, "首里城");
    assert_eq!(items[1].title, "昼食");
    assert_eq!(items[2].title, "ホテル");
    assert_eq!(items[3].title, "2日目");
}

#[test]
fn test_timeline_items_sorted_by_day_and_time() {
    let mut items = vec![
        it(1, 1, "国際通り", 0, Some("10:50")),
        it(2, 1, "首里城", 0, Some("09:00")),
        it(3, 2, "2日目", 0, Some("10:00")),
    ];
    sort_itinerary_items(&mut items);
    assert_eq!(items.len(), 3);
    assert_eq!(items[0].title, "首里城");
    assert_eq!(items[1].title, "国際通り");
    assert_eq!(items[2].title, "2日目");
    assert_eq!(items[0].day, 1);
    assert_eq!(items[0].start_time.as_deref(), Some("09:00"));
}

#[test]
fn timed_items_come_first_then_sequence() {
    let mut items = vec![
        it(1, 1, "未定A", 2, None),
        it(2, 1, "夕食", 1, Some("19:00")),
        it(3, 1, "未定B", 1, None),
        it(4, 1, "朝食", 5, Some("08:00")),
        it(5, 1, "朝食2", 3, Some("08:00")),
    ];
    sort_itinerary_items(&mut items);
    let titles: Vec<&str> = items.iter().map(|i| i.title.as_str()).collect();
    assert_eq!(titles, vec!["朝食2", "朝食", "夕食", "未定B", "未定A"]);
}

#[test]
fn markdown_order_ignores_the_clock_time() {
    let mut items = vec![
        it(1, 1, "夕食", 1, Some("19:00")),
        it(2, 1, "朝食", 2, Some("08:00")),
        it(3, 1, "未定", 0, None),
    ];
    sort_itinerary_items_for_markdown(&mut items);
    let titles: Vec<&str> = items.iter().map(|i| i.title.as_str()).collect();
    assert_eq!(titles, vec!["未定", "夕食", "朝食"]);
}

#[test]
fn service_preserves_ordering_and_checked_state() {
    let mut items = vec![check(1, "パスポート", 1, false), check(2, "ETCカード", 3, false), check(3, "充電器", 2, true)];
    sort_checklist_items(&mut items);
    let result = ChecklistListServiceResult { items };
    assert_eq!(result.items.len(), 3);
    assert_eq!(result.items[0].title, "パスポート");
    assert_eq!(result.items[1].title, "ETCカード");
    assert_eq!(result.items[2].title, "充電器");
    assert!(!result.items[0].is_done);
    assert!(!result.items[1].is_done);
    assert!(result.items[2].is_done);
}

#[test]
fn test_list_checklist_items_sorted() {
    let mut items = vec![check(3, "充電器", 2, true), check(2, "ETCカード", 3, false), check(1, "パスポート", 1, false)];
    sort_checklist_items(&mut items);
    assert_eq!(items.len(), 3);
    assert_eq!(items[0].title, "パスポート");
    assert_eq!(items[1].title, "ETCカード");
    assert_eq!(items[2].title, "充電器");
    assert!(!items[0].is_done);
    assert!(!items[1].is_done);
    assert!(items[2].is_done);
}

#[test]
fn service_preserves_sort_order_then_id_ordering() {
    let mut notes = vec![note(2, 0, "second"), note(1, 0, "first")];
    sort_notes(&mut notes);
    let result = NoteListServiceResult { owner_type: NoteOwnerType::Trip, owner_id: 1, notes };
    assert_eq!(result.notes.len(), 2);
    assert_eq!(result.notes[0].id, 1);
    assert_eq!(result.notes[1].id, 2);
    assert_eq!(result.owner_type, NoteOwnerType::Trip);
}

#[test]
fn service_preserves_ordering_by_id() {
    let trip = |id: i64, name: &str| Trip {
        id,
        name: name.to_string(),
        start_date: None,
        end_date: None,
        summary: None,
        created_at: String::new(),
        updated_at: String::new(),
    };
    let mut trips = vec![trip(2, "Trip B"), trip(1, "Trip A")];
    sort_trips(&mut trips);
    let result = TripListServiceResult { trips };
    assert_eq!(result.trips.len(), 2);
    assert_eq!(result.trips[0].id, 1);
    assert_eq!(result.trips[1].id, 2);
}

#[test]
fn expenses_by_itinerary_then_sequence() {
    let e = |id: i64, itin: i64, order: i64| Expense {
        id,
        itinerary_id: itin,
        title: None,
        amount: 1,
        currency: "JPY".to_string(),
        paid_by_name: None,
        expense_date: None,
        note: None,
        sort_order: order,
        created_at: String::new(),
        updated_at: String::new(),
    };
    let mut v = vec![e(1, 2, 0), e(2, 1, 5), e(3, 1, 5), e(4, 1, 1)];
    sort_expenses(&mut v);
    assert_eq!(v.iter().map(|x| x.id).collect::<Vec<_>>(), vec![4, 2, 3, 1]);
}

#[test]
fn export_notes_in_travel_book_order() {
    let mut notes = vec![
        ExportNote::Itinerary {
            itinerary_key: ExportItineraryKey { day_number: 1, sort_order: 2 },
            title: None,
            body: "it".to_string(),
        },
        ExportNote::Day { day_number: 2, title: None, body: "d2".to_string() },
        ExportNote::Trip { title: Some("b".to_string()), body: "".to_string() },
        ExportNote::Day { day_number: 1, title: None, body: "d1".to_string() },
        ExportNote::Trip { title: Some("a".to_string()), body: "z".to_string() },
    ];
    sort_export_notes_for_travel_book(&mut notes);
    let bodies: Vec<String> = notes
        .iter()
        .map(|n| match n {
            ExportNote::Trip { title, body } => format!("T:{}{}", title.clone().unwrap_or_default(), body),
            ExportNote::Day { body, .. } => format!("D:{body}"),
            ExportNote::Itinerary { body, .. } => format!("I:{body}"),
        })
        .collect();
    assert_eq!(bodies, vec!["T:az", "T:b", "D:d1", "D:d2", "I:it"]);
}

#[test]
fn sort_keys_compare_part_by_part() {
    let k = |a: i64, b: i64, c: i64, t: &str| SortKey {
        first: a,
        second: b,
        third: c,
        text: t.chars().collect(),
        fourth: 0,
        fifth: 0,
    };
    assert!(key_before(&k(1, 9, 9, "z"), &k(2, 0, 0, "")));
    assert!(key_before(&k(1, 1, 1, "ab"), &k(1, 1, 1, "b")));
    assert!(key_before(&k(1, 1, 1, "a"), &k(1, 1, 1, "ab")));
    assert!(!key_before(&k(1, 1, 1, "あ"), &k(1, 1, 1, "z")));
    assert!(!key_before(&k(1, 1, 1, "x"), &k(1, 1, 1, "x")));
    let mut later = k(1, 1, 1, "x");
    later.fourth = 2;
    assert!(key_before(&k(1, 1, 1, "x"), &later));
    assert!(key_before(&later, &k(1, 1, 1, "y")));
    assert!(!key_before(&k(1, 1, 1, "y"), &later));
}
