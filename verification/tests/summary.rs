use caglla::summary::{
    normalize_day_summary, normalize_summary, normalize_summary_for_import,
    normalize_trip_summary, SummaryError, DAY_SUMMARY_MAX_LEN, TRIP_SUMMARY_MAX_LEN,
};

#[test]
fn normalize_empty_and_whitespace_to_none() {
    assert_eq!(normalize_summary(None, 100).unwrap(), None);
    assert_eq!(normalize_summary(Some(""), 100).unwrap(), None);
    assert_eq!(normalize_summary(Some("   \t\n"), 100).unwrap(), None);
}

#[test]
fn normalize_trims_surrounding_whitespace() {
    assert_eq!(
        normalize_summary(Some("  hello world  "), 100).unwrap(),
        Some("hello world".to_string())
    );
}

#[test]
fn normalize_rejects_over_max_length() {
    let too_long = "x".repeat(TRIP_SUMMARY_MAX_LEN + 1);
    let err = normalize_trip_summary(Some(&too_long)).unwrap_err();
    assert!(err.message().contains(&TRIP_SUMMARY_MAX_LEN.to_string()));
}

#[test]
fn normalize_accepts_at_max_length() {
    let exact = "y".repeat(DAY_SUMMARY_MAX_LEN);
    assert_eq!(normalize_day_summary(Some(&exact)).unwrap(), Some(exact));
}

#[test]
fn normalize_summary_for_import_delegates_to_normalize() {
    assert_eq!(normalize_summary_for_import(Some("  ok  "), 10).unwrap(), Some("ok".to_string()));
}

#[test]
fn normalizing_twice_is_normalizing_once() {
    for s in ["  a b  ", "x", "\t\n", "  日本語のまとめ "] {
        let once = normalize_summary(Some(s), 100).unwrap();
        let twice = normalize_summary(once.as_deref(), 100).unwrap();
        assert_eq!(once, twice);
    }
}

#[test]
fn length_counts_characters_and_errors_differ_by_use() {
    let kana = "あ".repeat(10);
    assert_eq!(normalize_summary(Some(&kana), 10).unwrap(), Some(kana.clone()));
    assert_eq!(normalize_summary(Some(&kana), 9), Err(SummaryError::TooLong(9)));
    assert_eq!(normalize_summary_for_import(Some(&kana), 9), Err(SummaryError::InvalidInExport(9)));
}
