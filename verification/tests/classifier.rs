use lancaster_backend::direction::{detect_text_direction, is_rtl_language};
use lancaster_backend::dates::{parse_date, parse_time, parse_month, Date, Time, YearMonth};

#[test]
fn latin_text_in_english_is_ltr() {
    assert_eq!(detect_text_direction("Hello", "en"), "ltr");
}

#[test]
fn hebrew_text_overrides_latin_language() {
    assert_eq!(detect_text_direction("שלום", "en"), "rtl");
}

#[test]
fn rtl_language_code_is_authoritative_for_latin_text() {
    assert_eq!(detect_text_direction("Hello", "ar"), "rtl");
}

#[test]
fn empty_text_is_ltr() {
    assert_eq!(detect_text_direction("", "en"), "ltr");
}

#[test]
fn arabic_text_in_english_is_rtl() {
    assert_eq!(detect_text_direction("مرحبا بالعالم", "en"), "rtl");
}

#[test]
fn rtl_mark_character_forces_rtl() {
    assert_eq!(detect_text_direction("abc\u{200F}def", "en"), "rtl");
}

#[test]
fn mixed_text_with_hebrew_is_rtl() {
    assert_eq!(detect_text_direction("price: שקל", "fr"), "rtl");
}

#[test]
fn rtl_language_set_membership() {
    for code in ["ar", "he", "fa", "ur", "yi", "ps", "sd"] {
        assert!(is_rtl_language(code), "{code} should be right-to-left");
    }
    for code in ["en", "es", "fr", "de", "arabic", "a", ""] {
        assert!(!is_rtl_language(code), "{code} should not be right-to-left");
    }
}

#[test]
fn parse_date_accepts_calendar_dates() {
    assert_eq!(
        parse_date("2024-02-29"),
        Some(Date { year: 2024, month: 2, day: 29 })
    );
    assert_eq!(
        parse_date("1999-12-31"),
        Some(Date { year: 1999, month: 12, day: 31 })
    );
}

#[test]
fn parse_date_rejects_invalid_dates() {
    assert_eq!(parse_date("2023-02-29"), None);
    assert_eq!(parse_date("2024-13-01"), None);
    assert_eq!(parse_date("2024-00-10"), None);
    assert_eq!(parse_date("2024-04-31"), None);
    assert_eq!(parse_date("2024-4-31"), None);
    assert_eq!(parse_date("24-04-03"), None);
    assert_eq!(parse_date("2024/04/03"), None);
    assert_eq!(parse_date(""), None);
}

#[test]
fn parse_time_accepts_and_rejects() {
    assert_eq!(
        parse_time("09:30:00"),
        Some(Time { hour: 9, minute: 30, second: 0 })
    );
    assert_eq!(
        parse_time("23:59:59"),
        Some(Time { hour: 23, minute: 59, second: 59 })
    );
    assert_eq!(parse_time("24:00:00"), None);
    assert_eq!(parse_time("12:60:00"), None);
    assert_eq!(parse_time("12:00"), None);
    assert_eq!(parse_time("noonish"), None);
}

#[test]
fn parse_month_accepts_and_rejects() {
    assert_eq!(parse_month("2024-07"), Some(YearMonth { year: 2024, month: 7 }));
    assert_eq!(parse_month("2024-13"), None);
    assert_eq!(parse_month("2024-00"), None);
    assert_eq!(parse_month("2024-7"), None);
    assert_eq!(parse_month("2024-07-01"), None);
}
