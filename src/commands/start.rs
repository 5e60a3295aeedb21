//! Starting a live session.
use vstd::prelude::*;
use crate::calculator::{spec_cost_per_minute, Calculator};
use crate::helpers::{arg_counts, parse_attendees, roster_is};
use crate::models::{Config, Timestamp};
use crate::session::LiveMeetingState;

verus! {

/// A live session for the given per-role counts, running from `now`, with its
/// cost per minute taken from `config`. An empty roster is allowed and costs
/// nothing.
#[allow(clippy::too_many_arguments)]
pub fn run(
    engineers: u32,
    senior_engineers: u32,
    staff_engineers: u32,
    principal_engineers: u32,
    pms: u32,
    senior_pms: u32,
    director_pms: u32,
    designers: u32,
    senior_designers: u32,
    analysts: u32,
    senior_analysts: u32,
    directors: u32,
    vps: u32,
    executives: u32,
    generic: u32,
    config: &Config,
    now: Timestamp,
) -> (r: LiveMeetingState)
    ensures
        r.wf(),
        roster_is(
            r.roster(),
            arg_counts(
                engineers,
                senior_engineers,
                staff_engineers,
                principal_engineers,
                pms,
                senior_pms,
                director_pms,
                designers,
                senior_designers,
                analysts,
                senior_analysts,
                directors,
                vps,
                executives,
                generic,
            ),
        ),
        r@.cost_per_minute == spec_cost_per_minute(*config, r.roster()),
        r@.start == now.secs,
        r@.elapsed == 0,
        !r@.paused,
{
    let attendees = parse_attendees(
        engineers,
        senior_engineers,
        staff_engineers,
        principal_engineers,
        pms,
        senior_pms,
        director_pms,
        designers,
        senior_designers,
        analysts,
        senior_analysts,
        directors,
        vps,
        executives,
        generic,
    );
    let calculator = Calculator::new(config);
    let cost_per_minute = calculator.cost_per_minute(&attendees);
    LiveMeetingState::new(attendees, cost_per_minute, config.clone(), now)
}

} // verus!
