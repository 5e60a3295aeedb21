use meeting_meter::calculator::{Calculator, COST_UNITS_PER_CURRENCY};
use meeting_meter::models::{Config, Role, Roster, Timestamp};

fn units(currency: u128) -> u128 {
    currency * COST_UNITS_PER_CURRENCY
}

fn table_100_200() -> Config {
    let mut config = Config::default();
    config.set_rate(Role::Engineer, 10000);
    config.set_rate(Role::Director, 20000);
    config
}

#[test]
fn test_calculate_cost() {
    let config = table_100_200();
    let calc = Calculator::new(&config);

    let mut attendees = Roster::new();
    attendees.set(Role::Engineer, 3);
    attendees.set(Role::Director, 1);

    let start_time = Timestamp { secs: 1_700_000_000 };
    let end_time_60 = Timestamp { secs: start_time.secs + 60 * 60 };
    let end_time_30 = Timestamp { secs: start_time.secs + 30 * 60 };

    // 3 engineers at $100/hr + 1 director at $200/hr = $500/hr
    let cost = calc.calculate_cost(start_time, end_time_60, &attendees);
    assert_eq!(cost, units(500));

    let cost = calc.calculate_cost(start_time, end_time_30, &attendees);
    assert_eq!(cost, units(250));
}

#[test]
fn test_cost_per_minute() {
    let config = table_100_200();
    let calc = Calculator::new(&config);

    let mut attendees = Roster::new();
    attendees.set(Role::Engineer, 2);

    // 2 engineers at $100/hr = $200/hr = $3.33.../min
    let cost = calc.cost_per_minute(&attendees);
    let per_minute = cost as f64 / COST_UNITS_PER_CURRENCY as f64;
    assert!((per_minute - 3.333333).abs() < 0.001);
}

#[test]
fn default_rates_give_their_hourly_sum() {
    let config = Config::default();
    let calc = Calculator::new(&config);
    let mut attendees = Roster::new();
    attendees.set(Role::Engineer, 3);
    attendees.set(Role::Director, 1);
    let start = Timestamp { secs: 0 };
    let end = Timestamp { secs: 3600 };
    // 3 x $43 + $105 = $234 for the hour
    assert_eq!(calc.calculate_cost(start, end, &attendees), units(234));
}

#[test]
fn doubling_minutes_doubles_cost() {
    let config = Config::default();
    let calc = Calculator::new(&config);
    let mut attendees = Roster::new();
    attendees.set(Role::SeniorPm, 2);
    attendees.set(Role::Analyst, 5);
    let start = Timestamp { secs: 1000 };
    let c17 = calc.calculate_cost(start, Timestamp { secs: 1000 + 17 * 60 }, &attendees);
    let c34 = calc.calculate_cost(start, Timestamp { secs: 1000 + 34 * 60 }, &attendees);
    assert!(c17 > 0);
    assert_eq!(c34, 2 * c17);
}

#[test]
fn non_positive_interval_costs_nothing() {
    let config = Config::default();
    let calc = Calculator::new(&config);
    let mut attendees = Roster::new();
    attendees.set(Role::Executive, 4);
    let t = Timestamp { secs: 50_000 };
    assert_eq!(calc.calculate_cost(t, t, &attendees), 0);
    assert_eq!(calc.calculate_cost(t, Timestamp { secs: 10_000 }, &attendees), 0);
    // under one whole minute
    assert_eq!(calc.calculate_cost(t, Timestamp { secs: 50_059 }, &attendees), 0);
}

#[test]
fn hour_cost_is_sixty_times_per_minute() {
    let config = Config::default();
    let calc = Calculator::new(&config);
    let mut attendees = Roster::new();
    attendees.set(Role::Vp, 1);
    attendees.set(Role::Designer, 3);
    let t = Timestamp { secs: -7_777 };
    let hour = calc.calculate_cost(t, Timestamp { secs: t.secs + 3600 }, &attendees);
    assert_eq!(calc.cost_per_minute(&attendees) * 60, hour);
    // $106 + 3 x $57 = $277 per hour
    assert_eq!(hour, units(277));
}

#[test]
fn benefits_then_multiplier() {
    let mut attendees = Roster::new();
    attendees.set(Role::Engineer, 10);
    let start = Timestamp { secs: 0 };
    let end = Timestamp { secs: 3600 };

    let plain = Config::new(100, false);
    let benefits = Config::new(100, true);
    let doubled = Config::new(200, false);
    let both = Config::new(150, true);

    let base = Calculator::new(&plain).calculate_cost(start, end, &attendees);
    assert_eq!(base, units(430));
    let with_benefits = Calculator::new(&benefits).calculate_cost(start, end, &attendees);
    assert_eq!(with_benefits * 100, base * 140);
    assert_eq!(with_benefits, units(602));
    let with_doubled = Calculator::new(&doubled).calculate_cost(start, end, &attendees);
    assert_eq!(with_doubled, 2 * base);
    let with_both = Calculator::new(&both).calculate_cost(start, end, &attendees);
    assert_eq!(with_both * 10000, base * 140 * 150);
    assert_eq!(with_both, units(903));
}

#[test]
fn empty_roster_costs_nothing() {
    let config = Config::default();
    let calc = Calculator::new(&config);
    let attendees = Roster::new();
    assert_eq!(calc.cost_per_minute(&attendees), 0);
    assert_eq!(calc.calculate_cost(Timestamp { secs: 0 }, Timestamp { secs: 7200 }, &attendees), 0);
}

#[test]
fn try_cost_reports_overflow() {
    let mut config = Config::new(u32::MAX, true);
    let mut attendees = Roster::new();
    for role in Role::all_roles() {
        config.set_rate(role, u32::MAX);
        attendees.set(role, u32::MAX);
    }
    let calc = Calculator::new(&config);
    let long = calc.try_calculate_cost(Timestamp { secs: 0 }, Timestamp { secs: i64::MAX }, &attendees);
    assert_eq!(long, None);
    let short = calc.try_calculate_cost(Timestamp { secs: 0 }, Timestamp { secs: 60 }, &attendees);
    assert_eq!(short, Some(calc.cost_per_minute(&attendees)));
}

#[test]
fn update_meeting_cost_sets_cost() {
    let config = Config::default();
    let calc = Calculator::new(&config);
    let mut attendees = Roster::new();
    attendees.set(Role::Generic, 2);
    let mut meeting = meeting_meter::models::Meeting::new(
        Timestamp { secs: 0 },
        Timestamp { secs: 1800 },
        attendees,
        0,
    );
    calc.update_meeting_cost(&mut meeting);
    // 2 x $43 for half an hour
    assert_eq!(meeting.cost, units(43));
}
