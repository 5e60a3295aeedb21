use meeting_meter::error::MeterError;
use meeting_meter::models::{ClockTime, Span};
use meeting_meter::time_parser::{parse_duration, parse_duration_with, parse_time};

#[test]
fn test_parse_duration_simple() {
    assert_eq!(parse_duration("30m").unwrap(), Span::minutes(30));
    assert_eq!(parse_duration("2h").unwrap(), Span::hours(2));
    assert_eq!(parse_duration("1h30m").unwrap(), Span::minutes(90));
}

#[test]
fn test_parse_duration_decimal() {
    assert_eq!(parse_duration("1.5h").unwrap(), Span::minutes(90));
    assert_eq!(parse_duration("0.5h").unwrap(), Span::minutes(30));
    assert_eq!(parse_duration("0.25h").unwrap(), Span::minutes(15));
}

#[test]
fn test_parse_duration_from_humantime() {
    assert_eq!(parse_duration("90m").unwrap(), Span::minutes(90));
    assert_eq!(parse_duration("1m").unwrap(), Span::minutes(1));
}

#[test]
fn test_parse_time_12hr() {
    assert_eq!(parse_time("2pm").unwrap(), ClockTime::from_hms_opt(14, 0, 0).unwrap());
    assert_eq!(parse_time("2:30pm").unwrap(), ClockTime::from_hms_opt(14, 30, 0).unwrap());
    assert_eq!(parse_time("9:15am").unwrap(), ClockTime::from_hms_opt(9, 15, 0).unwrap());
    assert_eq!(parse_time("12pm").unwrap(), ClockTime::from_hms_opt(12, 0, 0).unwrap());
    assert_eq!(parse_time("12am").unwrap(), ClockTime::from_hms_opt(0, 0, 0).unwrap());
}

#[test]
fn test_parse_time_24hr() {
    assert_eq!(parse_time("14:00").unwrap(), ClockTime::from_hms_opt(14, 0, 0).unwrap());
    assert_eq!(parse_time("23:59").unwrap(), ClockTime::from_hms_opt(23, 59, 0).unwrap());
    assert_eq!(parse_time("00:00").unwrap(), ClockTime::from_hms_opt(0, 0, 0).unwrap());
    assert_eq!(parse_time("9:30").unwrap(), ClockTime::from_hms_opt(9, 30, 0).unwrap());
}

#[test]
fn clock_time_accepts_case_and_space() {
    assert_eq!(parse_time("  2 PM ").unwrap(), ClockTime::from_hms_opt(14, 0, 0).unwrap());
    assert_eq!(parse_time("11:45Am").unwrap(), ClockTime::from_hms_opt(11, 45, 0).unwrap());
    assert_eq!(parse_time("13pm").unwrap(), ClockTime::from_hms_opt(13, 0, 0).unwrap());
    assert_eq!(parse_time("0pm").unwrap(), ClockTime::from_hms_opt(12, 0, 0).unwrap());
}

#[test]
fn clock_time_errors() {
    assert!(matches!(parse_time("noon"), Err(MeterError::InvalidTimeFormat(s)) if s == "noon"));
    assert!(matches!(parse_time("123"), Err(MeterError::InvalidTimeFormat(_))));
    assert!(matches!(parse_time("9:3"), Err(MeterError::InvalidTimeFormat(_))));
    assert!(matches!(parse_time(""), Err(MeterError::InvalidTimeFormat(_))));
    assert!(matches!(parse_time("9:75"), Err(MeterError::InvalidMinute(75))));
    assert!(matches!(parse_time("24:00"), Err(MeterError::InvalidHour(24))));
    assert_eq!(parse_time("13:10pm").unwrap(), ClockTime::from_hms_opt(13, 10, 0).unwrap());
    assert!(matches!(parse_time("99pm"), Err(MeterError::InvalidHour(99))));
}

#[test]
fn duration_rounds_to_nearest_minute() {
    // 0.01h is 0.6 minutes: rounds up to one minute
    assert_eq!(parse_duration("0.01h").unwrap(), Span::minutes(1));
    // 0.025h is exactly 1.5 minutes: halves round up
    assert_eq!(parse_duration("0.025h").unwrap(), Span::minutes(2));
    assert_eq!(parse_duration("0.008h").unwrap(), Span::minutes(0));
    assert_eq!(parse_duration("2 H").unwrap(), Span::hours(2));
}

#[test]
fn duration_compact_form_when_general_grammar_fails() {
    // the general grammar's result is handed in directly here
    assert_eq!(parse_duration_with("1H30M", None).unwrap(), Span::minutes(90));
    assert_eq!(parse_duration_with("45m", None).unwrap(), Span::minutes(45));
    assert_eq!(parse_duration_with("2h", None).unwrap(), Span::hours(2));
    assert_eq!(parse_duration_with("2h 15 m", None).unwrap(), Span::minutes(135));
    assert!(matches!(parse_duration_with("0h0m", None), Err(MeterError::InvalidDurationFormat(_))));
    assert!(matches!(parse_duration_with("", None), Err(MeterError::InvalidDurationFormat(_))));
}

#[test]
fn duration_takes_general_grammar_result() {
    assert_eq!(parse_duration_with("whatever", Some((5400, 0))).unwrap(), Span::minutes(90));
    // the decimal-hours form comes first
    assert_eq!(parse_duration_with("1.5h", Some((1, 0))).unwrap(), Span::minutes(90));
    assert!(matches!(
        parse_duration_with("x", Some((u64::MAX, 0))),
        Err(MeterError::InvalidDurationFormat(_))
    ));
}

#[test]
fn duration_general_grammar_through_humantime() {
    assert_eq!(parse_duration("1h 30m").unwrap(), Span::minutes(90));
    assert_eq!(parse_duration("45s").unwrap(), Span::seconds(45));
    assert_eq!(parse_duration("1H30M").unwrap(), Span::minutes(90));
}

#[test]
fn duration_with_many_digits_skips_general_grammar() {
    // would overflow humantime's seconds; never handed to it
    assert!(matches!(
        parse_duration("18446744073709551615s 1000000000ns"),
        Err(MeterError::InvalidDurationFormat(_))
    ));
    // eleven digits are still read by the general grammar
    assert_eq!(parse_duration("99999999999s").unwrap(), Span::seconds(99_999_999_999));
    // twelve are not, and no other form reads them
    assert!(matches!(parse_duration("100000000000s"), Err(MeterError::InvalidDurationFormat(_))));
    // the compact form still reads long numbers
    assert_eq!(parse_duration("100000000000m").unwrap(), Span::minutes(100_000_000_000));
}

#[test]
fn sub_second_durations_are_whole_seconds() {
    assert_eq!(parse_duration("1500ms").unwrap(), Span::seconds(1));
    assert_eq!(parse_duration("500ms").unwrap(), Span::seconds(0));
}

#[test]
fn duration_errors() {
    assert!(matches!(parse_duration("soon"), Err(MeterError::InvalidDurationFormat(s)) if s == "soon"));
    assert!(matches!(parse_duration(" abc "), Err(MeterError::InvalidDurationFormat(s)) if s == "abc"));
    assert!(matches!(parse_duration("99999999999999999999h"), Err(MeterError::InvalidDurationFormat(_))));
}
