//! The live session: a clock that advances on unpaused ticks, pause and
//! resume, and the end of the session as a saved record or a discard.
use vstd::prelude::*;
use crate::models::{Config, Meeting, Role, Roster, Timestamp};

verus! {

/// What the surrounding loop hands the session.
#[derive(Debug, Clone, Copy, PartialEq, Eq, Structural)]
pub enum SessionEvent {
    /// One second has passed.
    Tick,
    /// Pause if running, resume if paused.
    TogglePause,
    /// End the session and keep a record of it.
    SaveAndQuit,
    /// End the session and keep nothing.
    DiscardAndQuit,
}

/// What the session asks of the loop after an event.
pub enum SessionOutcome {
    /// Keep running.
    Continue,
    /// The session ended with this record.
    Saved(Meeting),
    /// The session ended with no record.
    Discarded,
}

/// The abstract state of a session.
pub struct SessionView {
    pub start: int,
    pub elapsed: nat,
    pub paused: bool,
    pub baseline: nat,
    pub cost_per_minute: nat,
}

/// Accrued cost for `elapsed` running seconds at `cost_per_minute`, in cost
/// units (rounded down to a whole unit).
pub open spec fn accrued(cost_per_minute: nat, elapsed: nat) -> nat {
    cost_per_minute * elapsed / 60
}

/// The state after one event. Saving and discarding end the session and leave
/// the state as it was.
pub open spec fn step(s: SessionView, e: SessionEvent) -> SessionView {
    match e {
        SessionEvent::Tick => if s.paused {
            s
        } else {
            SessionView { elapsed: s.elapsed + 1, ..s }
        },
        SessionEvent::TogglePause => if s.paused {
            SessionView { paused: false, start: s.start + (s.elapsed - s.baseline), ..s }
        } else {
            SessionView { paused: true, baseline: s.elapsed, ..s }
        },
        _ => s,
    }
}

/// The state after a sequence of events.
pub open spec fn run(s: SessionView, events: Seq<SessionEvent>) -> SessionView
    decreases events.len(),
{
    if events.len() == 0 {
        s
    } else {
        run(step(s, events[0]), events.drop_first())
    }
}

/// Number of ticks in `events`.
pub open spec fn ticks(events: Seq<SessionEvent>) -> nat
    decreases events.len(),
{
    if events.len() == 0 {
        0
    } else {
        (if events[0] == SessionEvent::Tick { 1nat } else { 0nat }) + ticks(events.drop_first())
    }
}

/// The state of a live session.
pub struct LiveMeetingState {
    start_time: Timestamp,
    elapsed_seconds: i64,
    paused: bool,
    pause_elapsed: i64,
    attendees: Roster,
    cost_per_minute: u128,
    config_rates: Config,
}

impl View for LiveMeetingState {
    type V = SessionView;

    closed spec fn view(&self) -> SessionView {
        SessionView {
            start: self.start_time.secs as int,
            elapsed: self.elapsed_seconds as nat,
            paused: self.paused,
            baseline: self.pause_elapsed as nat,
            cost_per_minute: self.cost_per_minute as nat,
        }
    }
}

impl LiveMeetingState {
    /// While paused, no tick has been counted since the pause began.
    pub closed spec fn wf(&self) -> bool {
        &&& 0 <= self.pause_elapsed <= self.elapsed_seconds
        &&& self@.baseline <= self@.elapsed
        &&& self@.paused ==> self@.baseline == self@.elapsed
    }

    pub closed spec fn roster(&self) -> Roster {
        self.attendees
    }

    pub closed spec fn rates(&self) -> Config {
        self.config_rates
    }

    /// A session that starts running at `now` with nothing elapsed.
    pub fn new(attendees: Roster, cost_per_minute: u128, config_rates: Config, now: Timestamp) -> (r: LiveMeetingState)
        ensures
            r.wf(),
            r@.start == now.secs,
            r@.elapsed == 0,
            !r@.paused,
            r@.baseline == 0,
            r@.cost_per_minute == cost_per_minute,
            r.roster() == attendees,
            r.rates() == config_rates,
    {
        LiveMeetingState {
            start_time: now,
            elapsed_seconds: 0,
            paused: false,
            pause_elapsed: 0,
            attendees,
            cost_per_minute,
            config_rates,
        }
    }

    pub fn start_time(&self) -> (r: Timestamp)
        ensures
            r.secs == self@.start,
    {
        self.start_time
    }

    pub fn elapsed_seconds(&self) -> (r: i64)
        requires
            self.wf(),
        ensures
            r == self@.elapsed,
    {
        self.elapsed_seconds
    }

    pub fn is_paused(&self) -> (r: bool)
        ensures
            r == self@.paused,
    {
        self.paused
    }

    pub fn cost_per_minute(&self) -> (r: u128)
        ensures
            r == self@.cost_per_minute,
    {
        self.cost_per_minute
    }

    pub fn attendees(&self) -> (r: &Roster)
        ensures
            *r == self.roster(),
    {
        &self.attendees
    }

    pub fn config_rates(&self) -> (r: &Config)
        ensures
            *r == self.rates(),
    {
        &self.config_rates
    }

    /// Cost accrued so far: cost per minute times elapsed seconds over sixty.
    pub fn current_cost(&self) -> (r: u128)
        requires
            self.wf(),
            self@.cost_per_minute * self@.elapsed <= u128::MAX,
        ensures
            r == accrued(self@.cost_per_minute, self@.elapsed),
    {
        self.cost_per_minute * (self.elapsed_seconds as u128) / 60
    }

    /// One second passes: counted unless paused.
    pub fn tick(&mut self)
        requires
            old(self).wf(),
            old(self)@.elapsed < i64::MAX,
        ensures
            final(self).wf(),
            final(self)@ == step(old(self)@, SessionEvent::Tick),
            final(self).roster() == old(self).roster(),
            final(self).rates() == old(self).rates(),
    {
        if !self.paused {
            self.elapsed_seconds = self.elapsed_seconds + 1;
        }
    }

    /// Pauses a running session or resumes a paused one; on resume the start
    /// moves forward by what elapsed while paused.
    pub fn toggle_pause(&mut self)
        requires
            old(self).wf(),
        ensures
            final(self).wf(),
            final(self)@ == step(old(self)@, SessionEvent::TogglePause),
            final(self).roster() == old(self).roster(),
            final(self).rates() == old(self).rates(),
    {
        self.paused = !self.paused;
        if self.paused {
            self.pause_elapsed = self.elapsed_seconds;
        } else {
            let paused_for = self.elapsed_seconds - self.pause_elapsed;
            self.start_time = Timestamp { secs: self.start_time.secs + paused_for };
        }
    }

    /// Whether the session can be ended with a record: its end instant and
    /// its cost are representable.
    pub open spec fn can_finish(&self) -> bool {
        &&& self@.start + self@.elapsed <= i64::MAX
        &&& self@.cost_per_minute * self@.elapsed <= u128::MAX
    }

    /// Ends the session with a record: from the start, for the elapsed
    /// seconds, at the accrued cost.
    pub fn save_and_quit(self) -> (r: Meeting)
        requires
            self.wf(),
            self.can_finish(),
        ensures
            r.start_time.secs == self@.start,
            r.end_time.secs == self@.start + self@.elapsed,
            r.cost == accrued(self@.cost_per_minute, self@.elapsed),
            r.attendees == self.roster(),
            r.notes is None,
    {
        let cost = self.current_cost();
        let end_time = Timestamp { secs: self.start_time.secs + self.elapsed_seconds };
        Meeting::new(self.start_time, end_time, self.attendees, cost)
    }

    /// Applies one event. Saving yields the record; discarding yields none.
    pub fn handle(&mut self, event: SessionEvent) -> (r: SessionOutcome)
        requires
            old(self).wf(),
            event == SessionEvent::Tick ==> old(self)@.elapsed < i64::MAX,
            event == SessionEvent::SaveAndQuit ==> old(self).can_finish(),
        ensures
            final(self).wf(),
            final(self)@ == step(old(self)@, event),
            final(self).roster() == old(self).roster(),
            event == SessionEvent::DiscardAndQuit ==> r is Discarded,
            event == SessionEvent::Tick || event == SessionEvent::TogglePause ==> r is Continue,
            event == SessionEvent::SaveAndQuit ==> (r matches SessionOutcome::Saved(m) && m.start_time.secs
                == old(self)@.start && m.end_time.secs == old(self)@.start + old(self)@.elapsed && m.cost
                == accrued(old(self)@.cost_per_minute, old(self)@.elapsed) && m.attendees.same_counts(
                old(self).roster()) && m.notes is None && m.id@.len() == 36),
    {
        match event {
            SessionEvent::Tick => {
                self.tick();
                SessionOutcome::Continue
            },
            SessionEvent::TogglePause => {
                self.toggle_pause();
                SessionOutcome::Continue
            },
            SessionEvent::SaveAndQuit => {
                let cost = self.current_cost();
                let end_time = Timestamp { secs: self.start_time.secs + self.elapsed_seconds };
                let attendees = self.attendees.clone();
                SessionOutcome::Saved(Meeting::new(self.start_time, end_time, attendees, cost))
            },
            SessionEvent::DiscardAndQuit => SessionOutcome::Discarded,
        }
    }
}

/// `n` ticks in a row.
pub open spec fn tick_run(n: nat) -> Seq<SessionEvent> {
    Seq::new(n, |i: int| SessionEvent::Tick)
}

/// Running a sequence of events in two parts is running the whole.
pub proof fn lemma_run_concat(s: SessionView, x: Seq<SessionEvent>, y: Seq<SessionEvent>)
    ensures
        run(s, x + y) == run(run(s, x), y),
    decreases x.len(),
{
    if x.len() == 0 {
        assert(x + y =~= y);
    } else {
        assert((x + y).drop_first() =~= x.drop_first() + y);
        lemma_run_concat(step(s, x[0]), x.drop_first(), y);
    }
}

/// `n` ticks add `n` seconds to a running session and change nothing in a
/// paused one.
pub proof fn lemma_run_ticks(s: SessionView, n: nat)
    ensures
        run(s, tick_run(n)) == (if s.paused { s } else { SessionView { elapsed: s.elapsed + n, ..s } }),
    decreases n,
{
    if n > 0 {
        assert(tick_run(n).drop_first() =~= tick_run((n - 1) as nat));
        lemma_run_ticks(step(s, SessionEvent::Tick), (n - 1) as nat);
    } else {
        assert(tick_run(n).len() == 0);
    }
}

/// A tick while paused changes nothing, so neither elapsed time nor the
/// accrued cost moves.
pub proof fn lemma_paused_tick_keeps_cost(s: SessionView)
    requires
        s.paused,
    ensures
        step(s, SessionEvent::Tick) == s,
        accrued(step(s, SessionEvent::Tick).cost_per_minute, step(s, SessionEvent::Tick).elapsed)
            == accrued(s.cost_per_minute, s.elapsed),
{
}

/// A fresh session that runs for `before` ticks, is paused for `paused` ticks,
/// is resumed and runs `after` more ticks has seen `before + paused + after`
/// ticks and reports `before + after` elapsed seconds: the total less the
/// paused ticks.
pub proof fn lemma_pause_excludes_paused_ticks(s: SessionView, before: nat, paused: nat, after: nat)
    requires
        s.elapsed == 0,
        !s.paused,
    ensures
        ({
            let events = tick_run(before) + seq![SessionEvent::TogglePause] + tick_run(paused) + seq![
                SessionEvent::TogglePause] + tick_run(after);
            &&& ticks(events) == before + paused + after
            &&& run(s, events).elapsed == (before + paused + after) - paused
            &&& !run(s, events).paused
        }),
{
    let t1 = tick_run(before);
    let toggle = seq![SessionEvent::TogglePause];
    let t2 = tick_run(paused);
    let t3 = tick_run(after);
    lemma_run_concat(s, t1 + toggle + t2 + toggle, t3);
    lemma_run_concat(s, t1 + toggle + t2, toggle);
    lemma_run_concat(s, t1 + toggle, t2);
    lemma_run_concat(s, t1, toggle);
    lemma_run_ticks(s, before);
    let s1 = run(s, t1);
    assert(run(s1, toggle) == run(step(s1, SessionEvent::TogglePause), toggle.drop_first()));
    assert(toggle.drop_first().len() == 0);
    let s2 = step(s1, SessionEvent::TogglePause);
    lemma_run_ticks(s2, paused);
    let s3 = run(s2, t2);
    assert(run(s3, toggle) == run(step(s3, SessionEvent::TogglePause), toggle.drop_first()));
    let s4 = step(s3, SessionEvent::TogglePause);
    lemma_run_ticks(s4, after);
    lemma_ticks_concat(t1 + toggle + t2 + toggle, t3);
    lemma_ticks_concat(t1 + toggle + t2, toggle);
    lemma_ticks_concat(t1 + toggle, t2);
    lemma_ticks_concat(t1, toggle);
    lemma_ticks_of_run(before);
    lemma_ticks_of_run(paused);
    lemma_ticks_of_run(after);
    assert(ticks(toggle) == 0) by {
        assert(toggle[0] == SessionEvent::TogglePause);
        assert(toggle.drop_first().len() == 0);
        assert(ticks(toggle.drop_first()) == 0);
    }
}

proof fn lemma_ticks_concat(x: Seq<SessionEvent>, y: Seq<SessionEvent>)
    ensures
        ticks(x + y) == ticks(x) + ticks(y),
    decreases x.len(),
{
    if x.len() == 0 {
        assert(x + y =~= y);
    } else {
        assert((x + y).drop_first() =~= x.drop_first() + y);
        lemma_ticks_concat(x.drop_first(), y);
    }
}

proof fn lemma_ticks_of_run(n: nat)
    ensures
        ticks(tick_run(n)) == n,
    decreases n,
{
    if n > 0 {
        assert(tick_run(n).drop_first() =~= tick_run((n - 1) as nat));
        lemma_ticks_of_run((n - 1) as nat);
    } else {
        assert(tick_run(n).len() == 0);
    }
}

/// Elapsed time never decreases, and grows by at most one second per tick.
pub proof fn lemma_elapsed_monotone(s: SessionView, events: Seq<SessionEvent>)
    ensures
        s.elapsed <= run(s, events).elapsed <= s.elapsed + ticks(events),
    decreases events.len(),
{
    if events.len() > 0 {
        lemma_elapsed_monotone(step(s, events[0]), events.drop_first());
    }
}

} // verus!
