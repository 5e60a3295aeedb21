use meeting_meter::calculator::COST_UNITS_PER_CURRENCY;
use meeting_meter::commands::start;
use meeting_meter::models::{Config, Role, Roster, Timestamp};
use meeting_meter::session::{LiveMeetingState, SessionEvent, SessionOutcome};

fn fresh(cost_per_minute: u128) -> LiveMeetingState {
    let mut roster = Roster::new();
    roster.set(Role::Engineer, 2);
    LiveMeetingState::new(roster, cost_per_minute, Config::default(), Timestamp { secs: 1_000_000 })
}

#[test]
fn paused_ticks_do_not_count() {
    let mut s = fresh(600);
    for _ in 0..10 {
        s.handle(SessionEvent::Tick);
    }
    s.handle(SessionEvent::TogglePause);
    assert!(s.is_paused());
    let cost_at_pause = s.current_cost();
    for _ in 0..7 {
        s.handle(SessionEvent::Tick);
        assert_eq!(s.current_cost(), cost_at_pause);
    }
    s.handle(SessionEvent::TogglePause);
    assert!(!s.is_paused());
    for _ in 0..5 {
        s.handle(SessionEvent::Tick);
    }
    // 22 ticks, 7 of them paused
    assert_eq!(s.elapsed_seconds(), 22 - 7);
    assert_eq!(s.current_cost(), 600 * 15 / 60);
    assert_eq!(s.start_time().secs, 1_000_000);
}

#[test]
fn current_cost_is_rate_times_elapsed() {
    let mut s = fresh(7);
    for n in 1..=100u128 {
        s.tick();
        assert_eq!(s.current_cost(), 7 * n / 60);
    }
}

#[test]
fn save_after_two_minutes_costs_ten() {
    let mut s = fresh(5 * COST_UNITS_PER_CURRENCY);
    for _ in 0..120 {
        s.handle(SessionEvent::Tick);
    }
    match s.handle(SessionEvent::SaveAndQuit) {
        SessionOutcome::Saved(m) => {
            assert_eq!(m.cost, 10 * COST_UNITS_PER_CURRENCY);
            assert_eq!(m.start_time.secs, 1_000_000);
            assert_eq!(m.end_time.secs, 1_000_120);
            assert_eq!(m.attendees.get(Role::Engineer), 2);
            assert_eq!(m.id.len(), 36);
            assert!(m.notes.is_none());
        }
        _ => panic!("expected a record"),
    }
}

#[test]
fn save_through_handle_gives_fresh_record_without_notes() {
    let mut s = fresh(60);
    s.handle(SessionEvent::Tick);
    match s.handle(SessionEvent::SaveAndQuit) {
        SessionOutcome::Saved(m) => {
            assert!(m.notes.is_none());
            assert_eq!(m.id.len(), 36);
            assert_eq!(m.cost, 1);
        }
        _ => panic!("expected a record"),
    }
}

#[test]
fn save_and_quit_consumes_session() {
    let mut s = fresh(120);
    for _ in 0..30 {
        s.tick();
    }
    let m = s.save_and_quit();
    assert_eq!(m.cost, 60);
    assert_eq!(m.end_time.secs - m.start_time.secs, 30);
}

#[test]
fn discard_never_yields_a_record() {
    for ticks in [0usize, 1, 59, 3600] {
        let mut s = fresh(1_000);
        for _ in 0..ticks {
            s.handle(SessionEvent::Tick);
        }
        assert!(matches!(s.handle(SessionEvent::DiscardAndQuit), SessionOutcome::Discarded));
    }
}

#[test]
fn start_builds_a_running_session() {
    let config = Config::default();
    let s = start::run(1, 0, 0, 0, 0, 0, 0, 0, 0, 0, 0, 0, 0, 0, 0, &config, Timestamp { secs: 5 });
    assert_eq!(s.elapsed_seconds(), 0);
    assert!(!s.is_paused());
    assert_eq!(s.attendees().get(Role::Engineer), 1);
    // $43 per hour is 43/60 currency units per minute
    assert_eq!(s.cost_per_minute() * 60, 43 * COST_UNITS_PER_CURRENCY);
    let empty = start::run(0, 0, 0, 0, 0, 0, 0, 0, 0, 0, 0, 0, 0, 0, 0, &config, Timestamp { secs: 5 });
    assert_eq!(empty.cost_per_minute(), 0);
}

#[test]
fn meeting_ids_are_fresh() {
    let a = meeting_meter::models::Meeting::new(Timestamp { secs: 0 }, Timestamp { secs: 60 }, Roster::new(), 0);
    let b = meeting_meter::models::Meeting::new(Timestamp { secs: 0 }, Timestamp { secs: 60 }, Roster::new(), 0);
    assert_eq!(a.id.len(), 36);
    assert_ne!(a.id, b.id);
    assert_eq!(a.duration_minutes(), 1);
}
