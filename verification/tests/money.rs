use caglla::edits::{prepare_imported_expense, prepare_new_expense};
use caglla::money::{
    currency_minor_unit_digits, format_amount_display, format_amount_value,
    format_integer_with_commas, parse_amount_for_currency, resolve_expense_list_target,
    validate_currency_code, ExpenseListTarget, ExpenseTargetError, MoneyError,
};

#[test]
fn test_validate_currency_code_normalizes_lowercase() {
    assert_eq!(validate_currency_code("jpy").unwrap(), "JPY");
    assert_eq!(validate_currency_code("Usd").unwrap(), "USD");
}

#[test]
fn test_validate_currency_code_allows_unknown_codes() {
    assert_eq!(validate_currency_code("XXX").unwrap(), "XXX");
}

#[test]
fn test_validate_currency_code_rejects_invalid_format() {
    assert!(validate_currency_code("JP").is_err());
    assert!(validate_currency_code("JPYY").is_err());
    assert!(validate_currency_code("JP1").is_err());
}

#[test]
fn test_parse_amount_jpy_integer() {
    assert_eq!(parse_amount_for_currency("1500", "JPY").unwrap(), 1500);
}

#[test]
fn test_parse_amount_usd_decimal() {
    assert_eq!(parse_amount_for_currency("12.50", "USD").unwrap(), 1250);
    assert_eq!(parse_amount_for_currency("12.5", "USD").unwrap(), 1250);
}

#[test]
fn test_parse_amount_rejects_too_many_decimals_for_jpy() {
    assert!(parse_amount_for_currency("10.5", "JPY").is_err());
}

#[test]
fn validated_currency_code_validates_to_itself() {
    for code in [" jpy ", "Usd", "eur", "XXX"] {
        let once = validate_currency_code(code).unwrap();
        assert_eq!(validate_currency_code(&once).unwrap(), once);
    }
}

#[test]
fn currency_code_errors_name_the_problem() {
    assert_eq!(validate_currency_code("JP"), Err(MoneyError::CurrencyLength));
    assert_eq!(validate_currency_code("J1Y"), Err(MoneyError::CurrencyNotAlphabetic));
    assert_eq!(validate_currency_code("  usd\t").unwrap(), "USD");
}

#[test]
fn minor_unit_digits_by_currency() {
    assert_eq!(currency_minor_unit_digits("JPY"), 0);
    assert_eq!(currency_minor_unit_digits("KRW"), 0);
    assert_eq!(currency_minor_unit_digits("USD"), 2);
    assert_eq!(currency_minor_unit_digits("EUR"), 2);
}

#[test]
fn amount_errors_are_reported() {
    assert!(parse_amount_for_currency("abc", "JPY").is_err());
    assert!(parse_amount_for_currency("", "USD").is_err());
    assert!(parse_amount_for_currency("1.234", "USD").is_err());
    assert_eq!(parse_amount_for_currency("0.05", "USD").unwrap(), 5);
    assert_eq!(parse_amount_for_currency(" 7 ", "JPY").unwrap(), 7);
}

#[test]
fn integers_get_thousands_separators() {
    assert_eq!(format_integer_with_commas(0), "0");
    assert_eq!(format_integer_with_commas(999), "999");
    assert_eq!(format_integer_with_commas(1000), "1,000");
    assert_eq!(format_integer_with_commas(1234567), "1,234,567");
    assert_eq!(format_integer_with_commas(-1234567), "-1,234,567");
}

#[test]
fn separators_taken_out_give_the_plain_number() {
    for n in [0i64, 7, 1000, 98765, -1234567, i64::MAX, i64::MIN] {
        let text = format_integer_with_commas(n);
        assert_eq!(text.replace(',', ""), n.to_string());
    }
}

#[test]
fn amounts_display_in_their_currency() {
    assert_eq!(format_amount_value(1500, "JPY"), "1,500");
    assert_eq!(format_amount_value(123456, "USD"), "1,234.56");
    assert_eq!(format_amount_display(1500, "JPY"), "1,500 JPY");
    assert_eq!(format_amount_display(1250, "USD"), "12.50 USD");
    assert_eq!(format_amount_display(-50, "USD"), "-0.50 USD");
}

#[test]
fn expense_list_target_needs_exactly_one() {
    assert!(matches!(resolve_expense_list_target(Some(3), None), Ok(ExpenseListTarget::Trip(3))));
    assert!(matches!(
        resolve_expense_list_target(None, Some(9)),
        Ok(ExpenseListTarget::Itinerary(9))
    ));
    assert!(matches!(resolve_expense_list_target(Some(1), Some(2)), Err(ExpenseTargetError::Both)));
    assert!(matches!(resolve_expense_list_target(None, None), Err(ExpenseTargetError::Neither)));
}

#[test]
fn new_expense_checks_currency_then_amount_then_date() {
    assert_eq!(prepare_new_expense("1500", "jpy", None).unwrap(), (1500, "JPY".to_string()));
    assert_eq!(
        prepare_new_expense("12.5", "usd", Some("2026-04-26")).unwrap(),
        (1250, "USD".to_string())
    );
    assert_eq!(prepare_new_expense("10", "JP", None), Err(MoneyError::CurrencyLength));
    assert!(prepare_new_expense("10.5", "JPY", Some("bad")).is_err());
    assert_eq!(prepare_new_expense("10", "JPY", Some("2026-02-30")), Err(MoneyError::InvalidDate));
}

#[test]
fn imported_expense_currency_is_normalized() {
    assert_eq!(prepare_imported_expense("eur", &None).unwrap(), "EUR");
    assert_eq!(
        prepare_imported_expense("EUR", &Some("2026-13-01".to_string())),
        Err(MoneyError::InvalidDate)
    );
}

#[test]
fn displayed_amounts_read_back_without_separators() {
    for (amount, currency) in [(123456i64, "USD"), (1500, "JPY"), (0, "EUR"), (5, "USD"), (9876543210, "KRW")] {
        let shown = format_amount_value(amount, currency).replace(',', "");
        assert_eq!(parse_amount_for_currency(&shown, currency).unwrap(), amount);
    }
}
