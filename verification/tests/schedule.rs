use caglla::schedule::{
    add_minutes_to_time, end_time_fits, fmt_date, fmt_minutes, fmt_text, parse_time_hhmm,
    time_error_message, TimeError,
};

#[test]
fn test_add_minutes_to_time() {
    assert_eq!(add_minutes_to_time("09:00", 90).unwrap(), "10:30");
    assert_eq!(add_minutes_to_time("12:30", 30).unwrap(), "13:00");
    assert!(parse_time_hhmm("25:00").is_err());
    assert!(parse_time_hhmm("9:00").is_err());
    assert!(add_minutes_to_time("23:00", 120).is_err());
}

#[test]
fn clock_times_are_read_as_hour_and_minute() {
    assert_eq!(parse_time_hhmm("09:05"), Ok((9, 5)));
    assert_eq!(parse_time_hhmm("23:59"), Ok((23, 59)));
    assert_eq!(parse_time_hhmm("0900"), Err(TimeError::Format));
    assert_eq!(parse_time_hhmm("09:00:00"), Err(TimeError::Format));
    assert_eq!(parse_time_hhmm("24:00"), Err(TimeError::Invalid));
    assert_eq!(parse_time_hhmm("ab:cd"), Err(TimeError::Invalid));
    assert_eq!(parse_time_hhmm("+9:00"), Err(TimeError::Invalid));
    assert_eq!(parse_time_hhmm("-0:00"), Err(TimeError::Invalid));
    assert_eq!(parse_time_hhmm("09:+5"), Err(TimeError::Invalid));
}

#[test]
fn end_time_errors() {
    assert_eq!(add_minutes_to_time("00:10", -30), Err(TimeError::NegativeResult));
    assert_eq!(add_minutes_to_time("23:00", 120), Err(TimeError::PastMidnight));
    assert_eq!(add_minutes_to_time("9:00", 10), Err(TimeError::Format));
    assert!(end_time_fits("09:00", 90));
    assert_eq!(
        time_error_message(TimeError::Format, "9:00"),
        "時刻は HH:MM 形式で指定してください: 9:00"
    );
    assert_eq!(time_error_message(TimeError::Invalid, "25:00"), "不正な時刻です: 25:00");
}

#[test]
fn adding_in_two_steps_is_adding_once() {
    let step = add_minutes_to_time("08:15", 50).unwrap();
    assert_eq!(add_minutes_to_time(&step, 95).unwrap(), add_minutes_to_time("08:15", 145).unwrap());
    let back = add_minutes_to_time(&step, -50).unwrap();
    assert_eq!(back, "08:15");
}

#[test]
fn adding_nothing_gives_the_time_back() {
    assert_eq!(add_minutes_to_time("07:45", 0).unwrap(), "07:45");
    assert_eq!(add_minutes_to_time("+7:05", 0), Err(TimeError::Invalid));
}

#[test]
fn display_helpers() {
    assert_eq!(fmt_date(&None), "-");
    assert_eq!(fmt_date(&Some("2026-04-26".to_string())), "2026-04-26");
    assert_eq!(fmt_text(&Some("メモ".to_string())), "メモ");
    assert_eq!(fmt_text(&None), "-");
    assert_eq!(fmt_minutes(Some(90)), "90分");
    assert_eq!(fmt_minutes(None), "-");
}
