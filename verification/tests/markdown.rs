use caglla::markdown::{
    build_trip_markdown, fmt_checklist_mark, format_checklist_markdown,
    format_itinerary_item_markdown, format_trip_date_range, format_trip_markdown,
};
use caglla::models::{ChecklistItem, ItineraryCategory, ItineraryItem, Trip};

fn trip(name: &str, start: Option<&str>, end: Option<&str>) -> Trip {
    Trip {
        id: 1,
        name: name.to_string(),
        start_date: start.map(|s| s.to_string()),
        end_date: end.map(|s| s.to_string()),
        summary: None,
        created_at: String::new(),
        updated_at: String::new(),
    }
}

#[allow(clippy::too_many_arguments)]
fn item(
    id: i64,
    day: i64,
    title: &str,
    note: Option<&str>,
    start: Option<&str>,
    order: Option<i64>,
    duration: Option<i64>,
    travel: Option<i64>,
    location: Option<&str>,
    category: Option<ItineraryCategory>,
) -> ItineraryItem {
    ItineraryItem {
        id,
        trip_id: 1,
        day,
        title: title.to_string(),
        note: note.map(|s| s.to_string()),
        start_time: start.map(|s| s.to_string()),
        sort_order: order.unwrap_or(0),
        duration_minutes: duration,
        travel_minutes: travel,
        location: location.map(|s| s.to_string()),
        category,
        created_at: String::new(),
        updated_at: String::new(),
    }
}

fn check(id: i64, title: &str, done: bool) -> ChecklistItem {
    ChecklistItem {
        id,
        trip_id: 1,
        title: title.to_string(),
        is_done: done,
        sort_order: 0,
        created_at: String::new(),
        updated_at: String::new(),
    }
}

#[test]
fn test_export_md_day_and_sort_order() {
    let items = vec![
        item(1, 2, "2日目・後", None, Some("14:00"), Some(2), None, None, None, None),
        item(2, 2, "2日目・先", None, Some("09:00"), Some(1), None, None, None, None),
        item(3, 1, "1日目", None, Some("10:00"), Some(1), None, None, None, None),
    ];
    let md = build_trip_markdown(&trip("並び順テスト", None, None), items, vec![]);
    let day1_pos = md.find("## Day 1").unwrap();
    let day2_pos = md.find("## Day 2").unwrap();
    let first_item_pos = md.find("### 10:00 1日目").unwrap();
    let second_day_first_pos = md.find("### 09:00 2日目・先").unwrap();
    let second_day_second_pos = md.find("### 14:00 2日目・後").unwrap();
    assert!(day1_pos < day2_pos);
    assert!(day1_pos < first_item_pos);
    assert!(second_day_first_pos < second_day_second_pos);
}

#[test]
fn test_export_md_includes_category() {
    let items = vec![item(
        1,
        1,
        "Hilton Hawaiian Village",
        None,
        None,
        None,
        None,
        None,
        Some("Waikiki"),
        Some(ItineraryCategory::Hotel),
    )];
    let md = build_trip_markdown(&trip("ハワイ旅行", None, None), items, vec![]);
    assert!(md.contains("### Hilton Hawaiian Village"));
    assert!(md.contains("Category: hotel"));
    assert!(md.contains("- 場所: Waikiki"));
    let category_pos = md.find("Category: hotel").unwrap();
    let location_pos = md.find("- 場所: Waikiki").unwrap();
    assert!(category_pos < location_pos);
}

#[test]
fn test_export_md_includes_checklist() {
    let checklist = vec![check(1, "パスポート", false), check(2, "充電器", true)];
    let md = build_trip_markdown(&trip("沖縄旅行", None, None), vec![], checklist);
    assert!(md.contains("## Checklist"));
    assert!(md.contains("- [ ] パスポート"));
    assert!(md.contains("- [x] 充電器"));
    assert!(md.find("## Checklist").unwrap() > md.find("# 沖縄旅行").unwrap());
    let passport_pos = md.find("- [ ] パスポート").unwrap();
    let charger_pos = md.find("- [x] 充電器").unwrap();
    assert!(passport_pos < charger_pos);
}

#[test]
fn test_export_md_no_checklist_section() {
    let md = build_trip_markdown(&trip("沖縄旅行", None, None), vec![], vec![]);
    assert!(!md.contains("## Checklist"));
}

#[test]
fn test_export_md_omits_category_when_unset() {
    let items = vec![item(1, 1, "首里城", None, None, None, None, None, None, None)];
    let md = build_trip_markdown(&trip("沖縄旅行", None, None), items, vec![]);
    assert!(!md.contains("Category:"));
}

#[test]
fn test_export_md_optional_fields_omitted() {
    let items = vec![item(1, 1, "散歩", None, None, Some(1), None, None, None, None)];
    let md = build_trip_markdown(&trip("ミニマル旅行", None, None), items, vec![]);
    assert!(md.contains("### 散歩"));
    assert!(!md.contains("- 場所:"));
    assert!(!md.contains("- 所要時間:"));
    assert!(!md.contains("- 移動時間:"));
    assert!(!md.contains("- メモ:"));
}

#[test]
fn test_export_md_start_time_with_and_without() {
    let items = vec![
        item(1, 1, "朝食", None, Some("08:00"), Some(1), None, None, None, None),
        item(2, 1, "自由時間", None, None, Some(2), None, None, None, None),
    ];
    let md = build_trip_markdown(&trip("テスト旅行", None, None), items, vec![]);
    assert!(md.contains("### 08:00 朝食"));
    assert!(md.contains("### 自由時間"));
    assert!(!md.contains("### 自由時間 自由時間"));
}

#[test]
fn test_export_md_with_itinerary() {
    let items = vec![item(
        1,
        1,
        "那覇空港",
        Some("レンタカー受け取り"),
        Some("09:00"),
        Some(1),
        Some(60),
        Some(30),
        Some("那覇空港"),
        None,
    )];
    let md = build_trip_markdown(&trip("沖縄旅行", Some("2026-04-26"), Some("2026-04-29")), items, vec![]);
    assert!(md.contains("# 沖縄旅行"));
    assert!(md.contains("2026-04-26 〜 2026-04-29"));
    assert!(md.contains("## Day 1"));
    assert!(md.contains("### 09:00 那覇空港"));
    assert!(md.contains("- 場所: 那覇空港"));
    assert!(md.contains("- 所要時間: 60分"));
    assert!(md.contains("- 移動時間: 30分"));
    assert!(md.contains("- メモ: レンタカー受け取り"));
}

#[test]
fn date_range_and_checklist_pieces() {
    assert_eq!(
        format_trip_date_range(&trip("t", Some("2026-04-26"), Some("2026-04-29"))),
        Some("2026-04-26 〜 2026-04-29".to_string())
    );
    assert_eq!(format_trip_date_range(&trip("t", None, None)), None);
    assert_eq!(fmt_checklist_mark(true), 'x');
    assert_eq!(fmt_checklist_mark(false), ' ');
    assert_eq!(format_checklist_markdown(&[]), None);
    let one = format_checklist_markdown(&[check(1, "傘", false)]).unwrap();
    assert!(one.contains("- [ ] 傘"));
    let single = format_itinerary_item_markdown(&item(1, 1, "首里城", None, Some("09:00"), None, Some(90), None, None, None));
    assert!(single.contains("### 09:00 首里城"));
    assert!(single.contains("- 所要時間: 90分"));
    let whole = format_trip_markdown(&trip("沖縄", None, None), &[], &[]);
    assert!(whole.starts_with("# 沖縄\n"));
}
