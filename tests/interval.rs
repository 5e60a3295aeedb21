use meeting_meter::error::MeterError;
use meeting_meter::interval::{calculate_start_end_times, resolve_interval};
use meeting_meter::models::{ClockTime, Span, Timestamp};

const TODAY: i64 = 20_000;
const DAY: i64 = TODAY * 86_400;

fn at(h: i64, m: i64) -> i64 {
    DAY + h * 3600 + m * 60
}

fn now() -> Timestamp {
    Timestamp { secs: at(16, 45) }
}

#[test]
fn start_and_duration() {
    let r = calculate_start_end_times(Some("2pm"), None, Some("1h"), now(), TODAY).unwrap();
    assert_eq!(r.start.secs, at(14, 0));
    assert_eq!(r.end.secs, at(15, 0));
    assert!(!r.assumed_one_hour);
}

#[test]
fn start_only_assumes_one_hour() {
    let r = calculate_start_end_times(Some("2pm"), None, None, now(), TODAY).unwrap();
    assert_eq!(r.start.secs, at(14, 0));
    assert_eq!(r.end.secs, at(15, 0));
    assert!(r.assumed_one_hour);
}

#[test]
fn end_and_duration() {
    let r = calculate_start_end_times(None, Some("3pm"), Some("90m"), now(), TODAY).unwrap();
    assert_eq!(r.start.secs, at(13, 30));
    assert_eq!(r.end.secs, at(15, 0));
    assert!(!r.assumed_one_hour);
}

#[test]
fn start_and_end() {
    let r = calculate_start_end_times(Some("9:15am"), Some("10:00"), None, now(), TODAY).unwrap();
    assert_eq!(r.start.secs, at(9, 15));
    assert_eq!(r.end.secs, at(10, 0));
}

#[test]
fn duration_only_ends_now() {
    let r = calculate_start_end_times(None, None, Some("45m"), now(), TODAY).unwrap();
    assert_eq!(r.end, now());
    assert_eq!(r.start.secs, at(16, 0));
}

#[test]
fn all_three_is_ambiguous() {
    let r = calculate_start_end_times(Some("2pm"), Some("3pm"), Some("1h"), now(), TODAY);
    assert!(matches!(r, Err(MeterError::AmbiguousIntervalArguments)));
}

#[test]
fn too_little_is_missing() {
    let r = calculate_start_end_times(None, None, None, now(), TODAY);
    assert!(matches!(r, Err(MeterError::MissingIntervalArguments)));
    let r = calculate_start_end_times(None, Some("3pm"), None, now(), TODAY);
    assert!(matches!(r, Err(MeterError::MissingIntervalArguments)));
}

#[test]
fn end_before_start_is_rejected() {
    let r = calculate_start_end_times(Some("3pm"), Some("2pm"), None, now(), TODAY);
    assert!(matches!(r, Err(MeterError::EndBeforeStart)));
    let r = calculate_start_end_times(Some("3pm"), Some("15:00"), None, now(), TODAY);
    assert!(matches!(r, Err(MeterError::EndBeforeStart)));
}

#[test]
fn parse_errors_pass_through_in_order() {
    let r = calculate_start_end_times(Some("later"), None, Some("nope"), now(), TODAY);
    assert!(matches!(r, Err(MeterError::InvalidTimeFormat(s)) if s == "later"));
    let r = calculate_start_end_times(Some("2pm"), None, Some("nope"), now(), TODAY);
    assert!(matches!(r, Err(MeterError::InvalidDurationFormat(s)) if s == "nope"));
    let r = calculate_start_end_times(None, Some("25:00"), Some("1h"), now(), TODAY);
    assert!(matches!(r, Err(MeterError::InvalidHour(25))));
}

#[test]
fn resolve_from_parts() {
    let two = ClockTime::from_hms_opt(14, 0, 0);
    let r = resolve_interval(two, None, Some(Span::minutes(30)), now(), TODAY).unwrap();
    assert_eq!(r.start.secs, at(14, 0));
    assert_eq!(r.end.secs, at(14, 30));
    let r = resolve_interval(None, None, Some(Span::seconds(0)), now(), TODAY);
    assert!(matches!(r, Err(MeterError::EndBeforeStart)));
}
