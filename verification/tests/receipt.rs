use caglla::models::{ExportReceiptV7, Receipt};
use caglla::receipt::{
    collect_export_receipt_validation_errors, format_amount_optional, normalize_import_receipt_status,
    normalize_optional_memo, plan_receipt_assignment, plan_receipt_import, plan_receipt_update,
    prepare_new_receipt, validate_receipt_amount_currency_pair, validate_receipt_has_content,
    validate_receipt_status, ImportTrashed, ReceiptError, UpdateReceiptParams,
    RECEIPT_STATUS_IGNORED, RECEIPT_STATUS_UNREVIEWED,
};
use caglla::receipt_handling::{
    build_export_receipt_v7, compute_pending_receipt_summary, export_timestamp_from, find_inconsistent_receipts_for_trip,
    format_db_timestamp_for_export, ignore_receipt, list_receipts_for_trip,
    pending_receipt_summary_lines, pending_receipt_totals_fit, restore_receipt, trash_receipt,
};

fn receipt(id: i64, amount: Option<i64>, currency: Option<&str>, memo: Option<&str>) -> Receipt {
    Receipt {
        id,
        trip_id: 1,
        day_id: None,
        trashed_at: None,
        amount,
        currency: currency.map(|c| c.to_string()),
        occurred_date: None,
        memo: memo.map(|m| m.to_string()),
        status: RECEIPT_STATUS_UNREVIEWED.to_string(),
        created_at: "2026-04-26 10:00:00".to_string(),
        updated_at: "2026-04-26 10:00:00".to_string(),
    }
}

#[test]
fn test_invalid_receipt_status_rejected() {
    assert!(validate_receipt_status("linked").is_err());
    assert!(validate_receipt_status("converted").is_err());
    assert!(validate_receipt_status("bogus").is_err());
}

#[test]
fn test_format_amount_optional_negative_decimal_currency_display() {
    let display = format_amount_optional(Some(-50), &Some("USD".to_string()));
    assert_eq!(display, "-0.50 USD");
    assert!(!display.contains("-0.500"));
}

#[test]
fn test_add_list_show_update_delete_receipt() {
    let fields = prepare_new_receipt(Some("1700"), Some("JPY"), Some("2026-04-26"), Some("これなんだっけ？")).unwrap();
    let mut stored = receipt(1, fields.amount, fields.currency.as_deref(), fields.memo.as_deref());
    stored.day_id = Some(11);
    stored.occurred_date = Some("2026-04-26".to_string());
    let listed = list_receipts_for_trip(&[stored.clone()], None, true, false).unwrap();
    assert_eq!(listed.len(), 1);
    assert_eq!(listed[0].status, RECEIPT_STATUS_UNREVIEWED);

    let changes = plan_receipt_update(
        &stored,
        &UpdateReceiptParams {
            day_number: None,
            amount_input: None,
            currency_input: None,
            occurred_date: None,
            memo: Some(Some("おかんのお土産っぽい")),
            clear_day: false,
            clear_amount_currency: false,
        },
        None,
    )
    .unwrap();
    assert_eq!(changes.memo.as_deref(), Some("おかんのお土産っぽい"));
    stored.memo = changes.memo.clone();

    ignore_receipt(&mut stored, Some("旅行費用ではない"), "2026-04-27 09:00:00");
    assert_eq!(stored.status, RECEIPT_STATUS_IGNORED);
    assert_eq!(stored.amount, Some(1700));
}

#[test]
fn test_import_normalizes_legacy_linked_status() {
    let export = ExportReceiptV7 {
        day_ref: None,
        amount: Some(100),
        currency: Some("JPY".to_string()),
        occurred_date: None,
        memo: Some("legacy".to_string()),
        status: "linked".to_string(),
        trashed_at: None,
    };
    let plan = plan_receipt_import(&export).unwrap();
    assert_eq!(plan.status, RECEIPT_STATUS_UNREVIEWED);
}

#[test]
fn test_export_import_receipt_roundtrip() {
    let fields = prepare_new_receipt(Some("1700"), Some("JPY"), None, Some("memo")).unwrap();
    let mut stored = receipt(1, fields.amount, fields.currency.as_deref(), fields.memo.as_deref());
    stored.day_id = Some(5);
    let exported = build_export_receipt_v7(&stored, Some(1)).unwrap();
    assert_eq!(exported.status, RECEIPT_STATUS_UNREVIEWED);
    assert!(exported.day_ref.is_some());
    let plan = plan_receipt_import(&exported).unwrap();
    assert_eq!(plan.status, RECEIPT_STATUS_UNREVIEWED);
    assert!(matches!(plan.trashed, ImportTrashed::No));
    assert_eq!(exported.memo.as_deref(), Some("memo"));
}

#[test]
fn import_status_rules() {
    assert_eq!(normalize_import_receipt_status("converted").unwrap(), "unreviewed");
    assert_eq!(normalize_import_receipt_status("ignored").unwrap(), "ignored");
    assert!(matches!(
        normalize_import_receipt_status("bogus"),
        Err(ReceiptError::InvalidStatus(ref s)) if s == "bogus"
    ));
    let ignored = ExportReceiptV7 {
        day_ref: None,
        amount: None,
        currency: None,
        occurred_date: None,
        memo: Some("m".to_string()),
        status: "ignored".to_string(),
        trashed_at: None,
    };
    assert!(matches!(plan_receipt_import(&ignored).unwrap().trashed, ImportTrashed::Now));
}

#[test]
fn memo_is_trimmed_and_blank_is_none() {
    assert_eq!(normalize_optional_memo(Some("  x  ")).unwrap(), Some("x".to_string()));
    assert_eq!(normalize_optional_memo(Some("   ")).unwrap(), None);
    let once = normalize_optional_memo(Some("  y ")).unwrap();
    assert_eq!(normalize_optional_memo(once.as_deref()).unwrap(), once);
}

#[test]
fn amount_and_currency_go_together() {
    assert!(matches!(
        validate_receipt_amount_currency_pair(Some(1), &None),
        Err(ReceiptError::CurrencyRequiredWithAmount)
    ));
    assert!(matches!(
        validate_receipt_amount_currency_pair(None, &Some("JPY".to_string())),
        Err(ReceiptError::AmountRequiredWithCurrency)
    ));
    assert!(validate_receipt_amount_currency_pair(None, &Some("  ".to_string())).is_ok());
    assert!(matches!(validate_receipt_has_content(&None, None), Err(ReceiptError::ContentRequired)));
    assert!(matches!(
        prepare_new_receipt(Some("1"), None, None, Some("m")),
        Err(ReceiptError::AmountCurrencyTogether)
    ));
}

#[test]
fn assignment_needs_amount_and_uses_memo_as_title() {
    let r = receipt(3, Some(1500), Some("JPY"), Some("お土産"));
    let plan = plan_receipt_assignment(&r, None, None, None).unwrap();
    assert_eq!(plan.amount_text, "1500");
    assert_eq!(plan.currency_text, "JPY");
    assert_eq!(plan.title, "お土産");
    let bare = receipt(4, None, None, Some("x"));
    assert!(matches!(plan_receipt_assignment(&bare, None, None, None), Err(ReceiptError::AssignAmountRequired)));
}

#[test]
fn pending_summary_counts_and_totals_by_currency() {
    let receipts = vec![
        receipt(1, Some(1000), Some("JPY"), None),
        receipt(2, Some(250), Some("USD"), None),
        receipt(3, None, None, Some("memo")),
        receipt(4, Some(500), Some("JPY"), None),
        receipt(5, Some(100), Some("EUR"), None),
    ];
    assert!(pending_receipt_totals_fit(&receipts));
    let summary = compute_pending_receipt_summary(&receipts);
    assert_eq!(summary.active_count, 5);
    assert_eq!(summary.without_amount_count, 1);
    assert_eq!(
        summary.totals_by_currency,
        vec![("EUR".to_string(), 100), ("JPY".to_string(), 1500), ("USD".to_string(), 250)]
    );
    let lines = pending_receipt_summary_lines(&summary);
    assert_eq!(
        lines,
        vec![
            "Pending Receipts:",
            "  Count: 5",
            "  Without amount: 1",
            "  Totals:",
            "    - 1.00 EUR",
            "    - 1,500 JPY",
            "    - 2.50 USD",
            "",
        ]
    );
}

#[test]
fn pending_summary_without_totals_and_overflow_check() {
    let summary = compute_pending_receipt_summary(&[receipt(1, None, None, Some("m"))]);
    assert_eq!(
        pending_receipt_summary_lines(&summary),
        vec!["Pending Receipts:", "  Count: 1", "  Without amount: 1", "  Totals: -", ""]
    );
    let huge = vec![receipt(1, Some(i64::MAX), Some("JPY"), None), receipt(2, Some(1), Some("JPY"), None)];
    assert!(!pending_receipt_totals_fit(&huge));
}

#[test]
fn inconsistent_receipts_are_found() {
    let mut a = receipt(1, None, None, Some("a"));
    a.status = "ignored".to_string();
    let mut b = receipt(2, None, None, Some("b"));
    b.trashed_at = Some("2026-04-26T10:00:00+09:00".to_string());
    let c = receipt(3, None, None, Some("c"));
    assert_eq!(find_inconsistent_receipts_for_trip(&[a, b, c]), vec![1, 2]);
}

#[test]
fn trash_and_restore() {
    let mut r = receipt(7, Some(300), Some("JPY"), Some("keep"));
    trash_receipt(&mut r, "2026-04-27 08:00:00");
    assert_eq!(r.status, "ignored");
    assert_eq!(r.trashed_at.as_deref(), Some("2026-04-27 08:00:00"));
    assert_eq!(r.memo.as_deref(), Some("keep"));
    restore_receipt(&mut r, "2026-04-28 08:00:00");
    assert_eq!(r.status, "unreviewed");
    assert!(r.trashed_at.is_none());
    assert_eq!(r.amount, Some(300));
    assert_eq!(r.updated_at, "2026-04-28 08:00:00");
    ignore_receipt(&mut r, Some("   "), "2026-04-29 08:00:00");
    assert_eq!(r.memo.as_deref(), Some("keep"));
}

#[test]
fn listing_filters_by_trash_and_status_in_id_order() {
    let mut trashed = receipt(2, None, None, Some("t"));
    trashed.trashed_at = Some("2026-04-26T10:00:00+09:00".to_string());
    trashed.status = "ignored".to_string();
    let active = receipt(1, None, None, Some("a"));
    let later = receipt(3, None, None, Some("c"));
    let all = vec![later.clone(), trashed.clone(), active.clone()];
    let ids = |v: Vec<Receipt>| v.iter().map(|r| r.id).collect::<Vec<_>>();
    assert_eq!(ids(list_receipts_for_trip(&all, None, false, false).unwrap()), vec![1, 3]);
    assert_eq!(ids(list_receipts_for_trip(&all, None, true, false).unwrap()), vec![1, 2, 3]);
    assert_eq!(ids(list_receipts_for_trip(&all, None, false, true).unwrap()), vec![2]);
    assert_eq!(ids(list_receipts_for_trip(&all, Some("ignored"), true, false).unwrap()), vec![2]);
    assert!(matches!(list_receipts_for_trip(&all, Some("linked"), true, false), Err(ReceiptError::InvalidStatus(_))));
}

#[test]
fn export_timestamps_and_status_check() {
    assert_eq!(format_db_timestamp_for_export("2026-04-26T10:00:00+09:00"), "2026-04-26T10:00:00+09:00");
    assert_eq!(format_db_timestamp_for_export("not a time"), "not a time");
    let local = format_db_timestamp_for_export("2026-04-26 10:00:00");
    assert!(local.starts_with("2026-04-26T10:00:00"));
    let mut bad = receipt(1, None, None, Some("m"));
    bad.status = "linked".to_string();
    assert!(build_export_receipt_v7(&bad, None).is_err());
    let plain = receipt(2, None, None, Some("m"));
    assert!(build_export_receipt_v7(&plain, Some(3)).unwrap().day_ref.is_none());
}

#[test]
fn export_validation_lists_every_problem() {
    let bad = ExportReceiptV7 {
        day_ref: None,
        amount: Some(10),
        currency: None,
        occurred_date: Some("2026-99-01".to_string()),
        memo: None,
        status: "odd".to_string(),
        trashed_at: Some("yesterday".to_string()),
    };
    let errors = collect_export_receipt_validation_errors(&[bad.clone()], 8);
    assert_eq!(
        errors,
        vec![
            "receipts[0].status: invalid receipt status: odd",
            "receipts[0]: currency is required when amount is set",
            "receipts[0].occurred_date: expense_date は YYYY-MM-DD 形式である必要があります",
            "receipts[0].trashed_at: invalid RFC3339 timestamp",
        ]
    );
    assert!(collect_export_receipt_validation_errors(&[bad.clone()], 6).is_empty());
    let v7 = collect_export_receipt_validation_errors(&[bad], 7);
    assert_eq!(v7.last().unwrap(), "receipts[0].trashed_at: unsupported before schema v8");
}

#[test]
fn receipt_rules_hold_after_each_step() {
    let fields = prepare_new_receipt(Some("12.5"), Some("usd"), None, None).unwrap();
    assert_eq!(fields.amount, Some(1250));
    assert_eq!(fields.currency.as_deref(), Some("USD"));
    let mut r = receipt(1, fields.amount, fields.currency.as_deref(), None);
    let clear = UpdateReceiptParams {
        day_number: None,
        amount_input: None,
        currency_input: None,
        occurred_date: None,
        memo: None,
        clear_day: false,
        clear_amount_currency: true,
    };
    assert!(matches!(plan_receipt_update(&r, &clear, None), Err(ReceiptError::ContentRequired)));
    let half = UpdateReceiptParams { amount_input: Some("3"), clear_amount_currency: false, ..clear };
    assert!(matches!(plan_receipt_update(&r, &half, None), Err(ReceiptError::UpdateCurrencyRequired)));
    let moved = UpdateReceiptParams { day_number: Some(2), clear_amount_currency: false, ..clear };
    let changes = plan_receipt_update(&r, &moved, Some(77)).unwrap();
    assert_eq!(changes.day_id, Some(77));
    assert_eq!(changes.amount, Some(1250));
    r.day_id = changes.day_id;
    let exported = build_export_receipt_v7(&r, Some(2)).unwrap();
    let plan = plan_receipt_import(&exported).unwrap();
    assert_eq!(plan.status, r.status);
}

#[test]
fn export_timestamp_choice() {
    assert_eq!(export_timestamp_from("a", true, Some("b".to_string())), "a");
    assert_eq!(export_timestamp_from("a", false, Some("b".to_string())), "b");
    assert_eq!(export_timestamp_from("a", false, None), "a");
    let local = format_db_timestamp_for_export("2026-04-26 10:00:00");
    assert_eq!(local.len(), "2026-04-26T10:00:00+09:00".len());
    assert_eq!(&local[..19], "2026-04-26T10:00:00");
    assert!(&local[19..20] == "+" || &local[19..20] == "-");
    assert_eq!(&local[22..23], ":");
}
