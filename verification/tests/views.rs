use caglla::models::ItineraryItem;
use caglla::views::{itinerary_timeline_lines, timeline_fits};

fn it(id: i64, day: i64, title: &str, start: Option<&str>, duration: Option<i64>, travel: Option<i64>) -> ItineraryItem {
    ItineraryItem {
        id,
        trip_id: 1,
        day,
        title: title.to_string(),
        note: None,
        start_time: start.map(|s| s.to_string()),
        sort_order: id,
        duration_minutes: duration,
        travel_minutes: travel,
        location: None,
        category: None,
        created_at: String::new(),
        updated_at: String::new(),
    }
}

#[test]
fn timeline_shows_the_day_as_in_the_guide() {
    let items = vec![
        it(1, 1, "首里城", Some("09:00"), Some(90), Some(20)),
        it(2, 1, "国際通り", Some("10:50"), Some(60), None),
    ];
    assert!(timeline_fits(&items));
    assert_eq!(
        itinerary_timeline_lines(&items),
        vec![
            "Day 1",
            "",
            "09:00 首里城",
            "  所要時間: 90分",
            "  終了予定: 10:30",
            "",
            "  ↓ 移動 20分",
            "",
            "10:50 国際通り",
            "  所要時間: 60分",
            "  終了予定: 11:50",
        ]
    );
}

#[test]
fn timeline_without_time_and_across_days() {
    let items = vec![it(1, 1, "ホテル", None, Some(30), None), it(2, 2, "出発", Some("07:00"), None, None)];
    assert_eq!(
        itinerary_timeline_lines(&items),
        vec!["Day 1", "", "時刻: 未定", "ホテル", "  所要時間: 30分", "", "Day 2", "", "07:00 出発"]
    );
    assert_eq!(itinerary_timeline_lines(&[]), vec!["日程はまだ登録されていません。"]);
}

#[test]
fn timeline_end_past_midnight_is_left_out() {
    let items = vec![it(1, 1, "夜景", Some("23:00"), Some(120), None)];
    assert_eq!(itinerary_timeline_lines(&items), vec!["Day 1", "", "23:00 夜景", "  所要時間: 120分"]);
}
