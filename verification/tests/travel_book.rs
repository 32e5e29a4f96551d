use std::collections::{BTreeMap, HashMap};

use caglla::models::{Day, Estimate, ExportItineraryKey, ExportNote, ItineraryCategory, ItineraryItem, Participant, Trip};
use caglla::travel_book::{
    collect_days_overview_entries, format_moment, format_period_from_moments,
    format_reservation_datetime_endpoint, format_travel_book_category_detail_line,
    format_travel_book_reservation_heading, format_travel_book_reservation_period,
    planned_cost_estimate_display_title, planned_cost_itinerary_group_label,
    planned_cost_note_column_visible, reservation_provider_line_redundant,
    travel_book_day_overview_label, travel_book_note_sort_key, trip_overview_time_metrics_worth_showing,
    trip_overview_worth_showing, ParsedMoment, TripStats,
};

fn empty_stats() -> TripStats {
    TripStats {
        trip_name: String::new(),
        days: 1,
        itinerary_count: 0,
        checklist_completed: 0,
        checklist_total: 0,
        category_counts: HashMap::new(),
        stay_minutes: 0,
        travel_minutes: 0,
        total_minutes: 0,
        expense_count: 0,
        expense_totals: BTreeMap::new(),
        estimate_count: 0,
        estimate_totals: BTreeMap::new(),
        difference_totals: None,
        registered_participant_count: 0,
        participants_recorded: false,
        self_known: false,
        participant_count: None,
        traveler_count: None,
        companion_count: None,
    }
}

#[test]
fn test_trip_overview_time_metrics_worth_showing() {
    let mut stats = empty_stats();
    assert!(!trip_overview_time_metrics_worth_showing(&stats));
    stats.stay_minutes = 1;
    assert!(trip_overview_time_metrics_worth_showing(&stats));
}

#[test]
fn test_collect_days_overview_entries() {
    let days = vec![
        Day {
            id: 1,
            trip_id: 1,
            day_number: 2,
            title: String::new(),
            summary: Some("  Day 2 summary  ".to_string()),
            created_at: String::new(),
            updated_at: String::new(),
        },
        Day {
            id: 2,
            trip_id: 1,
            day_number: 1,
            title: String::new(),
            summary: Some("Day 1 summary".to_string()),
            created_at: String::new(),
            updated_at: String::new(),
        },
        Day {
            id: 3,
            trip_id: 1,
            day_number: 3,
            title: String::new(),
            summary: Some("   ".to_string()),
            created_at: String::new(),
            updated_at: String::new(),
        },
    ];
    let entries = collect_days_overview_entries(&days);
    assert_eq!(entries.len(), 2);
    assert_eq!(entries[0].day_number, 1);
    assert_eq!(entries[0].summary, "Day 1 summary");
    assert_eq!(entries[1].day_number, 2);
    assert_eq!(entries[1].summary, "Day 2 summary");
}

#[test]
fn test_planned_cost_note_column_visible() {
    let with_note = Estimate {
        id: 1,
        itinerary_id: 1,
        title: None,
        amount: 100,
        currency: "JPY".to_string(),
        note: Some("memo".to_string()),
        sort_order: 0,
        created_at: String::new(),
        updated_at: String::new(),
    };
    let empty_note = Estimate { note: Some("  ".to_string()), ..with_note.clone() };
    let no_note = Estimate { note: None, ..with_note.clone() };
    assert!(planned_cost_note_column_visible(&[&with_note]));
    assert!(!planned_cost_note_column_visible(&[&empty_note, &no_note]));
}

#[test]
fn test_planned_cost_estimate_display_title() {
    assert_eq!(planned_cost_estimate_display_title(None), "-");
    assert_eq!(planned_cost_estimate_display_title(Some("  ")), "-");
    assert_eq!(planned_cost_estimate_display_title(Some("Lunch")), "Lunch");
}

#[test]
fn test_format_travel_book_category_detail_line_uses_definition_display_name() {
    assert_eq!(format_travel_book_category_detail_line(ItineraryCategory::Transport), "- 種別: 移動");
    assert_eq!(format_travel_book_category_detail_line(ItineraryCategory::Flight), "- 種別: フライト");
    for category in ItineraryCategory::all() {
        let line = format_travel_book_category_detail_line(category);
        assert!(line.starts_with("- 種別: "));
        assert!(!line.contains(category.as_str()));
    }
}

#[test]
fn test_reservation_provider_line_redundant() {
    assert!(reservation_provider_line_redundant("NU045 NGO ⇒ OKA", "NU045 NGO ⇒ OKA (11:00着)"));
    assert!(reservation_provider_line_redundant("セントレア P1 G Parking", "P1 G Parking"));
    assert!(!reservation_provider_line_redundant("ヒルトン瀬底", "チェックイン"));
    assert!(!reservation_provider_line_redundant("Ks Rent A Car", "Toyota Alphard 又は同等車種"));
}

#[test]
fn test_format_travel_book_reservation_period_human_readable() {
    assert_eq!(
        format_travel_book_reservation_period(
            &Some("2026-04-26T16:40".to_string()),
            &Some("2026-04-29T10:00".to_string()),
        ),
        Some("2026-04-26 16:40 〜 2026-04-29 10:00".to_string())
    );
    assert_eq!(
        format_travel_book_reservation_period(
            &Some("2026-04-26T16:40".to_string()),
            &Some("2026-04-26T18:00".to_string()),
        ),
        Some("2026-04-26 16:40 〜 18:00".to_string())
    );
    assert_eq!(format_travel_book_reservation_period(&None, &None), None);
}

#[test]
fn reservation_period_with_one_end_or_dates_only() {
    assert_eq!(
        format_travel_book_reservation_period(&Some(" 2026-04-26T16:40 ".to_string()), &None),
        Some("2026-04-26 16:40".to_string())
    );
    assert_eq!(
        format_travel_book_reservation_period(&None, &Some("2026-04-29".to_string())),
        Some("2026-04-29".to_string())
    );
    assert_eq!(
        format_travel_book_reservation_period(&Some("  ".to_string()), &Some("午後".to_string())),
        Some("午後".to_string())
    );
    assert_eq!(
        format_travel_book_reservation_period(
            &Some("2026-04-26".to_string()),
            &Some("2026-04-29".to_string())
        ),
        Some("2026-04-26 〜 2026-04-29".to_string())
    );
    assert_eq!(format_reservation_datetime_endpoint("2026-04-26 09:05:00"), "2026-04-26 09:05");
    assert_eq!(format_reservation_datetime_endpoint("someday"), "someday");
}

#[test]
fn periods_from_read_moments() {
    let start = ParsedMoment {
        text: "2026-04-26T16:40".to_string(),
        datetime: Some(("2026-04-26".to_string(), 16, 40)),
        date: None,
    };
    let end = ParsedMoment { text: "later".to_string(), datetime: None, date: None };
    assert_eq!(format_period_from_moments(&start, &end), "2026-04-26 16:40 〜 later");
    let shown: String = format_moment(&end).into_iter().collect();
    assert_eq!(shown, "later");
}

#[test]
fn reservation_heading_leaves_out_a_redundant_provider() {
    assert_eq!(
        format_travel_book_reservation_heading(1, "NU045 NGO ⇒ OKA (11:00着)", "NU045 NGO ⇒ OKA"),
        "**Day 1 / NU045 NGO ⇒ OKA (11:00着)**"
    );
    assert_eq!(
        format_travel_book_reservation_heading(3, "チェックイン", "ヒルトン瀬底"),
        "**Day 3 / チェックイン** — ヒルトン瀬底"
    );
}

#[test]
fn day_overview_label_with_and_without_date() {
    assert_eq!(travel_book_day_overview_label(2, Some("2026-04-27")), "Day 2 — 2026-04-27");
    assert_eq!(travel_book_day_overview_label(5, None), "Day 5");
}

fn item(day: i64, title: &str, start: Option<&str>) -> ItineraryItem {
    ItineraryItem {
        id: 1,
        trip_id: 1,
        day,
        title: title.to_string(),
        note: None,
        start_time: start.map(|s| s.to_string()),
        sort_order: 0,
        duration_minutes: None,
        travel_minutes: None,
        location: None,
        category: None,
        created_at: String::new(),
        updated_at: String::new(),
    }
}

#[test]
fn itinerary_group_label_shows_the_time_when_known() {
    assert_eq!(planned_cost_itinerary_group_label(&item(1, "首里城", Some("09:00"))), "Day 1 / 09:00 首里城");
    assert_eq!(planned_cost_itinerary_group_label(&item(2, "水族館", None)), "Day 2 / 水族館");
}

#[test]
fn note_sort_keys_put_trip_then_day_then_itinerary() {
    let trip_note = ExportNote::Trip { title: Some("t".to_string()), body: "b".to_string() };
    let day_note = ExportNote::Day { day_number: 2, title: None, body: "day".to_string() };
    let it_note = ExportNote::Itinerary {
        itinerary_key: ExportItineraryKey { day_number: 1, sort_order: 3 },
        title: Some("x".to_string()),
        body: "y".to_string(),
    };
    assert_eq!(travel_book_note_sort_key(&trip_note), (0, 0, 0, "tb".to_string()));
    assert_eq!(travel_book_note_sort_key(&day_note), (1, 2, 0, "day".to_string()));
    assert_eq!(travel_book_note_sort_key(&it_note), (2, 1, 3, "xy".to_string()));
}

#[test]
fn trip_overview_shown_when_anything_is_known() {
    let trip = Trip {
        id: 1,
        name: "旅".to_string(),
        start_date: None,
        end_date: None,
        summary: Some("  ".to_string()),
        created_at: String::new(),
        updated_at: String::new(),
    };
    let mut stats = empty_stats();
    stats.days = 0;
    let none: Vec<Participant> = Vec::new();
    assert!(!trip_overview_worth_showing(&trip, &none, &stats));
    let dated = Trip { start_date: Some("2026-04-26".to_string()), ..trip.clone() };
    assert!(trip_overview_worth_showing(&dated, &none, &stats));
    stats.days = 1;
    assert!(trip_overview_worth_showing(&trip, &none, &stats));
}
