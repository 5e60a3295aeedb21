use meeting_meter::calculator::COST_UNITS_PER_CURRENCY;
use meeting_meter::commands::config::{parse_role, role_from_lowercase};
use meeting_meter::commands::log;
use meeting_meter::error::MeterError;
use meeting_meter::helpers::parse_attendees;
use meeting_meter::models::{Config, Role, Timestamp};

#[test]
fn role_names_and_aliases() {
    assert_eq!(parse_role("eng").unwrap(), Role::Engineer);
    assert_eq!(parse_role("Senior Engineer").unwrap(), Role::SeniorEngineer);
    assert_eq!(parse_role("SR-PM").unwrap(), Role::SeniorPm);
    assert_eq!(parse_role("Director of PM").unwrap(), Role::DirectorPm);
    assert_eq!(parse_role("C-Level").unwrap(), Role::Executive);
    assert_eq!(parse_role("VICE PRESIDENT").unwrap(), Role::Vp);
    assert_eq!(parse_role("generic").unwrap(), Role::Generic);
    assert!(matches!(parse_role("wizard"), Err(MeterError::UnknownRole(s)) if s == "wizard"));
}

#[test]
fn role_from_lowercase_is_case_sensitive() {
    assert_eq!(role_from_lowercase("principal"), Some(Role::PrincipalEngineer));
    assert_eq!(role_from_lowercase("Principal"), None);
}

#[test]
fn all_roles_in_order() {
    let roles = Role::all_roles();
    assert_eq!(roles.len(), 15);
    assert_eq!(roles[0], Role::Engineer);
    assert_eq!(roles[14], Role::Generic);
    for (i, r) in roles.iter().enumerate() {
        assert_eq!(r.index(), i);
    }
    assert_eq!(Role::Executive.default_rate(), 13900);
    assert_eq!(Role::DirectorPm.display_name(), "Director of PM");
}

#[test]
fn attendees_skip_zero_counts() {
    let r = parse_attendees(3, 0, 0, 0, 1, 0, 0, 0, 0, 0, 0, 2, 0, 0, 0);
    assert_eq!(r.get(Role::Engineer), 3);
    assert_eq!(r.get(Role::ProductManager), 1);
    assert_eq!(r.get(Role::Director), 2);
    assert_eq!(r.get(Role::Vp), 0);
    assert_eq!(r.entries(), vec![(Role::Engineer, 3), (Role::ProductManager, 1), (Role::Director, 2)]);
    assert!(!r.is_empty());
    assert!(parse_attendees(0, 0, 0, 0, 0, 0, 0, 0, 0, 0, 0, 0, 0, 0, 0).is_empty());
}

#[test]
fn log_builds_a_record() {
    let config = Config::default();
    let logged = log::run(
        Some("2pm"), Some("3pm"), None,
        2, 0, 0, 0, 0, 0, 0, 0, 0, 0, 0, 0, 0, 0, 0,
        &config, Timestamp { secs: 0 }, 0,
    )
    .unwrap();
    assert!(!logged.assumed_one_hour);
    let m = logged.meeting;
    assert_eq!(m.id.len(), 36);
    assert!(m.notes.is_none());
    assert_eq!(m.start_time.secs, 14 * 3600);
    assert_eq!(m.end_time.secs, 15 * 3600);
    assert_eq!(m.cost, 86 * COST_UNITS_PER_CURRENCY);
}

#[test]
fn log_reports_one_hour_assumption() {
    let config = Config::default();
    let logged = log::run(
        Some("2pm"), None, None,
        1, 0, 0, 0, 0, 0, 0, 0, 0, 0, 0, 0, 0, 0, 0,
        &config, Timestamp { secs: 0 }, 0,
    )
    .unwrap();
    assert!(logged.assumed_one_hour);
    assert_eq!(logged.meeting.end_time.secs - logged.meeting.start_time.secs, 3600);
    let r = log::run(
        Some("noon"), None, None,
        1, 0, 0, 0, 0, 0, 0, 0, 0, 0, 0, 0, 0, 0, 0,
        &config, Timestamp { secs: 0 }, 0,
    );
    assert!(matches!(r, Err(MeterError::InvalidTimeFormat(_))));
}

#[test]
fn log_needs_attendees() {
    let config = Config::default();
    let r = log::run(
        Some("2pm"), Some("3pm"), None,
        0, 0, 0, 0, 0, 0, 0, 0, 0, 0, 0, 0, 0, 0, 0,
        &config, Timestamp { secs: 0 }, 0,
    );
    assert!(matches!(r, Err(MeterError::EmptyAttendeeRoster)));
    let r = log::run(
        None, None, None,
        1, 0, 0, 0, 0, 0, 0, 0, 0, 0, 0, 0, 0, 0, 0,
        &config, Timestamp { secs: 0 }, 0,
    );
    assert!(matches!(r, Err(MeterError::MissingIntervalArguments)));
}

#[test]
fn log_reports_cost_overflow() {
    let mut config = Config::new(u32::MAX, true);
    for role in Role::all_roles() {
        config.set_rate(role, u32::MAX);
    }
    let m = u32::MAX;
    let r = log::run(
        None, None, Some("1000000000h"),
        m, m, m, m, m, m, m, m, m, m, m, m, m, m, m,
        &config, Timestamp { secs: 0 }, 0,
    );
    assert!(matches!(r, Err(MeterError::CostOverflow)));
}
