use caglla::listing::{
    checklist_detail_lines, checklist_list_lines, expense_detail_lines, expense_list_lines,
    itinerary_detail_lines, itinerary_list_lines, trip_detail_lines, trip_list_lines,
};
use caglla::models::{ChecklistItem, Expense, ItineraryItem, Receipt, Trip};
use caglla::money::ExpenseListTarget;
use caglla::receipt_handling::{receipt_detail_lines, receipt_list_lines};

fn pad(s: &str, w: usize) -> String {
    format!("{s:<w$}")
}

#[test]
fn trip_table_and_detail() {
    assert_eq!(trip_list_lines(&[]), vec!["旅行はまだ登録されていません。"]);
    let t = Trip {
        id: 1,
        name: "沖縄旅行".to_string(),
        start_date: Some("2026-04-26".to_string()),
        end_date: None,
        summary: None,
        created_at: "2026-01-01 00:00:00".to_string(),
        updated_at: "2026-01-02 00:00:00".to_string(),
    };
    let lines = trip_list_lines(&[t.clone()]);
    assert_eq!(lines[0], format!("{:<6} {:<20} {:<12} {:<12}", "ID", "名前", "開始日", "終了日"));
    assert_eq!(lines[1], "-".repeat(52));
    assert_eq!(lines[2], format!("{:<6} {:<20} {:<12} {:<12}", 1, "沖縄旅行", "2026-04-26", "-"));
    assert_eq!(lines[3], "");
    assert_eq!(lines[4], "合計: 1 件");
    assert_eq!(
        trip_detail_lines(&t),
        vec![
            "ID        : 1",
            "名前      : 沖縄旅行",
            "開始日    : 2026-04-26",
            "終了日    : -",
            "作成日時  : 2026-01-01 00:00:00",
            "更新日時  : 2026-01-02 00:00:00",
        ]
    );
}

#[test]
fn itinerary_table_and_detail() {
    let it = ItineraryItem {
        id: 3,
        trip_id: 1,
        day: 1,
        title: "首里城".to_string(),
        note: Some("午前".to_string()),
        start_time: Some("09:00".to_string()),
        sort_order: 10,
        duration_minutes: Some(90),
        travel_minutes: None,
        location: None,
        category: None,
        created_at: "c".to_string(),
        updated_at: "u".to_string(),
    };
    assert_eq!(itinerary_list_lines(&[]), vec!["日程はまだ登録されていません。"]);
    let lines = itinerary_list_lines(&[it.clone()]);
    assert_eq!(
        lines[0],
        format!("{:<6} {:<6} {:<8} {:<16} {:<8} {:<8} {:<12}", "ID", "日目", "時刻", "タイトル", "所要", "移動", "メモ")
    );
    assert_eq!(lines[1], "-".repeat(70));
    assert_eq!(
        lines[2],
        format!("{:<6} {:<6} {:<8} {:<16} {:<8} {:<8} {:<12}", 3, 1, "09:00", "首里城", "90分", "-", "午前")
    );
    assert_eq!(lines[4], "合計: 1 件");
    let detail = itinerary_detail_lines(&it);
    assert_eq!(detail[3], "時刻      : 09:00");
    assert_eq!(detail[5], "所要時間  : 90分");
    assert_eq!(detail[6], "移動時間  : -");
    assert_eq!(detail.len(), 11);
}

#[test]
fn checklist_lines() {
    let done = ChecklistItem {
        id: 2,
        trip_id: 1,
        title: "充電器".to_string(),
        is_done: true,
        sort_order: 1,
        created_at: "c".to_string(),
        updated_at: "u".to_string(),
    };
    assert_eq!(checklist_list_lines(&[]), vec!["チェックリストはまだ登録されていません。"]);
    assert_eq!(checklist_list_lines(&[done.clone()]), vec!["[x] 2. 充電器"]);
    let detail = checklist_detail_lines(&done);
    assert_eq!(detail[2], "状態      : [x]");
    assert_eq!(detail[3], "並び順    : 1");
}

#[test]
fn expense_lines() {
    let e = Expense {
        id: 5,
        itinerary_id: 3,
        title: None,
        amount: 150000,
        currency: "JPY".to_string(),
        paid_by_name: Some("太郎".to_string()),
        expense_date: Some("2026-04-26".to_string()),
        note: None,
        sort_order: 0,
        created_at: String::new(),
        updated_at: String::new(),
    };
    assert_eq!(expense_list_lines(ExpenseListTarget::Trip(1), &[]), vec!["Trip 1 の Expense (0 件):", "  （なし）"]);
    let lines = expense_list_lines(ExpenseListTarget::Itinerary(3), &[e.clone()]);
    assert_eq!(lines[0], "Itinerary 3 の Expense (1 件):");
    assert_eq!(lines[1], format!("{:<4} {:<6} {:<16} {:<12} {:<10}", "ID", "Itin.", "Amount", "Title", "Paid By"));
    assert_eq!(lines[2], format!("{:<4} {:<6} {:<16} {:<12} {:<10}", 5, 3, "150,000 JPY", "-", "太郎"));
    let detail = expense_detail_lines(&e);
    assert_eq!(detail[3], "Amount      : 150,000 JPY");
    assert_eq!(detail[5], "Date        : 2026-04-26");
}

#[test]
fn receipt_lines() {
    let r = Receipt {
        id: 4,
        trip_id: 1,
        day_id: Some(8),
        trashed_at: None,
        amount: Some(1250),
        currency: Some("USD".to_string()),
        occurred_date: None,
        memo: Some("tip".to_string()),
        status: "unreviewed".to_string(),
        created_at: "c".to_string(),
        updated_at: "u".to_string(),
    };
    assert_eq!(receipt_list_lines(&[], &[]), vec!["Receipt はまだ登録されていません。"]);
    let lines = receipt_list_lines(&[r.clone()], &[Some(2)]);
    assert_eq!(
        lines[0],
        format!("{:<4} {:<10} {:<6} {:<16} {:<12} {:<6} Memo", "ID", "Status", "Day", "Amount", "Date", "Trash")
    );
    assert_eq!(lines[1], "-".repeat(72));
    assert_eq!(
        lines[2],
        format!("{} {} {} {} {} {} {}", pad("4", 4), pad("unreviewed", 10), pad("2", 6), pad("12.50 USD", 16), pad("-", 12), pad("-", 6), "tip")
    );
    assert_eq!(lines[4], "合計: 1 件");
    let detail = receipt_detail_lines(&r, None);
    assert_eq!(detail[2], "Day             : -");
    assert_eq!(detail[3], "Amount          : 12.50 USD");
    assert_eq!(detail[8], "Status          : unreviewed");
}
