use caglla::doctor::{
    analyze_trip, format_minutes_duration, format_missing_duration_warning,
    travel_sums_within_range,
};
use caglla::models::{ItineraryCategory, ItineraryItem};
use caglla::views::doctor_report_lines;

fn item(
    id: i64,
    day: i64,
    title: &str,
    order: i64,
    duration: Option<i64>,
    travel: Option<i64>,
    category: Option<ItineraryCategory>,
) -> ItineraryItem {
    ItineraryItem {
        id,
        trip_id: 1,
        day,
        title: title.to_string(),
        note: None,
        start_time: None,
        sort_order: order,
        duration_minutes: duration,
        travel_minutes: travel,
        location: None,
        category,
        created_at: String::new(),
        updated_at: String::new(),
    }
}

#[test]
fn test_doctor_detects_many_itineraries_per_day() {
    let items: Vec<ItineraryItem> = (0..8)
        .map(|i| item(i + 1, 2, &format!("予定{i}"), i, Some(60), None, Some(ItineraryCategory::Activity)))
        .collect();
    assert!(travel_sums_within_range(&items));
    let report = analyze_trip(&items);
    assert!(report.warnings.iter().any(|w| w == "Day 2 has many itineraries (8)"));
}

#[test]
fn test_doctor_detects_missing_restaurant() {
    let items = vec![item(1, 3, "観光", 1, Some(90), None, Some(ItineraryCategory::Activity))];
    let report = analyze_trip(&items);
    assert!(report.warnings.iter().any(|w| w == "Day 3 has no restaurant"));
    assert!(report
        .suggestions
        .iter()
        .any(|s| s == "Consider adding a lunch or dinner plan to Day 3"));
}

#[test]
fn test_doctor_detects_high_travel_time() {
    let items = vec![
        item(1, 4, "移動1", 1, Some(60), Some(100), Some(ItineraryCategory::Transport)),
        item(2, 4, "移動2", 2, Some(60), Some(90), Some(ItineraryCategory::Transport)),
    ];
    let report = analyze_trip(&items);
    assert!(report.warnings.iter().any(|w| w == "Day 4 has high travel time (3h10m)"));
    assert!(report.suggestions.iter().any(|s| s == "Consider reducing travel time on Day 4"));
}

#[test]
fn test_doctor_detects_missing_duration_singular() {
    let items = vec![item(1, 1, "散歩", 1, None, None, None)];
    let report = analyze_trip(&items);
    assert!(report.warnings.iter().any(|w| w == "1 itinerary has no duration estimate"));
}

#[test]
fn test_doctor_detects_missing_duration_plural() {
    let items: Vec<ItineraryItem> =
        (1..=3).map(|i| item(i, 1, &format!("予定{i}"), i, None, None, None)).collect();
    let report = analyze_trip(&items);
    assert!(report.warnings.iter().any(|w| w == "3 itineraries have no duration estimate"));
}

#[test]
fn test_doctor_clean_trip_has_no_issues() {
    let items = vec![item(1, 1, "昼食", 1, Some(60), Some(30), Some(ItineraryCategory::Restaurant))];
    let report = analyze_trip(&items);
    assert!(report.warnings.is_empty());
    assert!(report.suggestions.is_empty());
    assert!(report.info.is_empty());
}

#[test]
fn test_doctor_empty_itinerary_reports_info() {
    let report = analyze_trip(&[]);
    assert!(report.warnings.is_empty());
    assert!(report.suggestions.is_empty());
    assert_eq!(report.info, vec!["No itinerary found.".to_string()]);
    let lines = doctor_report_lines("空の旅行", &report);
    assert_eq!(lines[0], "Trip Doctor");
    assert!(lines.iter().any(|l| l == "Info"));
    assert!(lines.iter().any(|l| l == "- No itinerary found."));
}

#[test]
fn doctor_checks_days_in_order_then_missing_durations() {
    let items = vec![
        item(1, 2, "a", 1, None, Some(200), None),
        item(2, 1, "b", 1, Some(30), None, Some(ItineraryCategory::Restaurant)),
    ];
    let report = analyze_trip(&items);
    assert_eq!(
        report.warnings,
        vec![
            "Day 2 has no restaurant",
            "Day 2 has high travel time (3h20m)",
            "1 itinerary has no duration estimate",
        ]
    );
    assert_eq!(
        report.suggestions,
        vec!["Consider adding a lunch or dinner plan to Day 2", "Consider reducing travel time on Day 2"]
    );
}

#[test]
fn doctor_report_text() {
    let items = vec![item(1, 1, "昼食", 1, Some(60), None, Some(ItineraryCategory::Restaurant))];
    let report = analyze_trip(&items);
    assert_eq!(
        doctor_report_lines("問題なし旅行", &report),
        vec!["Trip Doctor", "===========", "", "Trip: 問題なし旅行", "", "No major issues found."]
    );
    let busy = vec![item(1, 1, "観光", 1, None, None, None)];
    let lines = doctor_report_lines("旅", &analyze_trip(&busy));
    assert_eq!(
        lines,
        vec![
            "Trip Doctor",
            "===========",
            "",
            "Trip: 旅",
            "",
            "Warnings",
            "--------",
            "- Day 1 has no restaurant",
            "- 1 itinerary has no duration estimate",
            "",
            "Suggestions",
            "-----------",
            "- Consider adding a lunch or dinner plan to Day 1",
        ]
    );
}

#[test]
fn durations_and_counts_in_words() {
    assert_eq!(format_minutes_duration(190), "3h10m");
    assert_eq!(format_minutes_duration(45), "45m");
    assert_eq!(format_minutes_duration(120), "2h");
    assert_eq!(format_missing_duration_warning(1), "1 itinerary has no duration estimate");
    assert_eq!(format_missing_duration_warning(4), "4 itineraries have no duration estimate");
}

#[test]
fn travel_sums_that_overflow_are_detected() {
    let items = vec![
        item(1, 1, "a", 1, Some(1), Some(i64::MAX), None),
        item(2, 1, "b", 2, Some(1), Some(1), None),
    ];
    assert!(!travel_sums_within_range(&items));
}
