//! Logging a past meeting: roster, interval and cost.
use vstd::prelude::*;
use crate::calculator::{spec_cost, Calculator};
use crate::error::{Failure, MeterError};
use crate::helpers::{arg_counts, parse_attendees, roster_is};
use crate::interval::{calculate_start_end_times, clock_inputs_ok, interval_spec, text_of};
use crate::models::{Config, Meeting, ROLE_COUNT};

verus! {

/// A logged meeting, and whether its end was taken as one hour after its
/// start because only a start was given.
pub struct LoggedMeeting {
    pub meeting: Meeting,
    pub assumed_one_hour: bool,
}

/// Builds the record of a past meeting from the interval texts and the
/// per-role counts, costed against `config`; `now` is the current instant and
/// `today` the current day number. Fails with `EmptyAttendeeRoster` when every
/// count is zero, with the interval's failure when it cannot be resolved, and
/// with `CostOverflow` when the cost is not representable. The result also
/// reports the one-hour assumption made when only a start was given.
#[allow(clippy::too_many_arguments)]
pub fn run(
    start: Option<&str>,
    end: Option<&str>,
    duration: Option<&str>,
    engineers: u32,
    senior_engineers: u32,
    staff_engineers: u32,
    principal_engineers: u32,
    pms: u32,
    senior_pms: u32,
    director_pms: u32,
    designers: u32,
    senior_designers: u32,
    analysts: u32,
    senior_analysts: u32,
    directors: u32,
    vps: u32,
    executives: u32,
    generic: u32,
    config: &Config,
    now: crate::models::Timestamp,
    today: i64,
) -> (r: Result<LoggedMeeting, MeterError>)
    requires
        clock_inputs_ok(now.secs as int, today as int),
    ensures
        ({
            let counts = arg_counts(
                engineers,
                senior_engineers,
                staff_engineers,
                principal_engineers,
                pms,
                senior_pms,
                director_pms,
                designers,
                senior_designers,
                analysts,
                senior_analysts,
                directors,
                vps,
                executives,
                generic,
            );
            let interval = interval_spec(
                text_of(start),
                text_of(end),
                text_of(duration),
                now.secs as int,
                today as int,
            );
            if forall|i: int| 0 <= i < ROLE_COUNT ==> counts[i] == 0 {
                r matches Err(e) && e@ == Failure::EmptyAttendeeRoster
            } else {
                match interval {
                    Err(f) => r matches Err(e) && e@ == f,
                    Ok((s, t, assumed)) => match r {
                        Ok(logged) => {
                            let m = logged.meeting;
                            &&& logged.assumed_one_hour == assumed
                            &&& roster_is(m.attendees, counts)
                            &&& m.start_time.secs == s
                            &&& m.end_time.secs == t
                            &&& m.cost as nat == spec_cost(*config, m.attendees, s, t)
                            &&& m.notes is None
                            &&& m.id@.len() == 36
                        },
                        Err(e) => e@ == Failure::CostOverflow && exists|roster: crate::models::Roster|
                            roster_is(roster, counts) && spec_cost(*config, roster, s, t) > u128::MAX,
                    },
                }
            }
        }),
{
    let attendees = parse_attendees(
        engineers,
        senior_engineers,
        staff_engineers,
        principal_engineers,
        pms,
        senior_pms,
        director_pms,
        designers,
        senior_designers,
        analysts,
        senior_analysts,
        directors,
        vps,
        executives,
        generic,
    );
    let ghost counts = arg_counts(
        engineers,
        senior_engineers,
        staff_engineers,
        principal_engineers,
        pms,
        senior_pms,
        director_pms,
        designers,
        senior_designers,
        analysts,
        senior_analysts,
        directors,
        vps,
        executives,
        generic,
    );
    if attendees.is_empty() {
        assert forall|i: int| 0 <= i < ROLE_COUNT implies counts[i] == 0 by {
            assert(attendees.count(crate::models::role_at(i)) == counts[i] as nat);
        }
        return Err(MeterError::EmptyAttendeeRoster);
    }
    proof {
        if forall|i: int| 0 <= i < ROLE_COUNT ==> counts[i] == 0 {
            assert forall|role: crate::models::Role| attendees.count(role) == 0 by {
                assert(attendees.count(crate::models::role_at(role.idx())) == counts[role.idx()] as nat);
            }
        }
    }
    let interval = match calculate_start_end_times(start, end, duration, now, today) {
        Ok(i) => i,
        Err(e) => {
            return Err(e);
        },
    };
    let calculator = Calculator::new(config);
    match calculator.try_calculate_cost(interval.start, interval.end, &attendees) {
        Some(cost) => Ok(
            LoggedMeeting {
                meeting: Meeting::new(interval.start, interval.end, attendees, cost),
                assumed_one_hour: interval.assumed_one_hour,
            },
        ),
        None => Err(MeterError::CostOverflow),
    }
}

} // verus!
