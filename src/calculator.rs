//! Exact meeting cost.
//!
//! Rates are whole cents per hour and the context-switch multiplier is in
//! hundredths, so every cost is an exact integer number of cost units, where
//! one currency unit is `COST_UNITS_PER_CURRENCY` cost units. Nothing is rounded.
use vstd::prelude::*;
use crate::models::{whole_minutes, Config, Meeting, Role, Roster, Timestamp, role_at, ROLE_COUNT};

verus! {

/// Cost units in one currency unit: 100 cents, 3600 seconds per hour, and the
/// hundredths of the benefits factor and of the multiplier.
pub const COST_UNITS_PER_CURRENCY: u128 = 3_600_000_000;

/// Percent applied when benefits are included (a 40% overhead).
pub const BENEFITS_PERCENT: u32 = 140;

/// Sum of rate times count over the first `n` roles, in cents per hour.
pub open spec fn hourly_sum(config: Config, roster: Roster, n: int) -> nat
    decreases n,
{
    if n <= 0 {
        0
    } else {
        hourly_sum(config, roster, n - 1) + config.rate(role_at(n - 1)) * roster.count(role_at(n - 1))
    }
}

/// Sum of rate times count over all roles, in cents per hour.
pub open spec fn hourly_total(config: Config, roster: Roster) -> nat {
    hourly_sum(config, roster, ROLE_COUNT as int)
}

/// The benefits factor (in hundredths) times the multiplier (in hundredths).
pub open spec fn spec_factor(config: Config) -> nat {
    (if config.benefits() { 140nat } else { 100nat }) * config.multiplier()
}

/// Cost per minute, in cost units.
pub open spec fn spec_cost_per_minute(config: Config, roster: Roster) -> nat {
    hourly_total(config, roster) * spec_factor(config) * 60
}

/// Cost of the interval from `start` to `end`, in cost units: zero unless the
/// interval spans at least one whole minute.
pub open spec fn spec_cost(config: Config, roster: Roster, start: int, end: int) -> nat {
    let minutes = whole_minutes(end - start);
    if minutes <= 0 {
        0
    } else {
        spec_cost_per_minute(config, roster) * (minutes as nat)
    }
}

proof fn lemma_hourly_sum_bound(config: Config, roster: Roster, n: int)
    requires
        0 <= n <= ROLE_COUNT,
    ensures
        hourly_sum(config, roster, n) <= n * (0xffff_ffff * 0xffff_ffff),
    decreases n,
{
    if n > 0 {
        lemma_hourly_sum_bound(config, roster, n - 1);
        config.lemma_rate_bound(role_at(n - 1));
        roster.lemma_count_bound(role_at(n - 1));
        let r = config.rate(role_at(n - 1));
        let c = roster.count(role_at(n - 1));
        assert(r * c <= 0xffff_ffff * 0xffff_ffff) by (nonlinear_arith)
            requires
                r <= 0xffff_ffff,
                c <= 0xffff_ffff,
        ;
        assert((n - 1) * (0xffff_ffff * 0xffff_ffff) + 0xffff_ffff * 0xffff_ffff == n * (0xffff_ffff
            * 0xffff_ffff)) by (nonlinear_arith);
    }
}

proof fn lemma_cost_per_minute_bound(config: Config, roster: Roster)
    ensures
        spec_cost_per_minute(config, roster) <= u128::MAX,
{
    lemma_hourly_sum_bound(config, roster, ROLE_COUNT as int);
    let h = hourly_total(config, roster);
    let b: nat = if config.benefits() { 140nat } else { 100nat };
    let m = config.multiplier();
    config.lemma_multiplier_bound();
    let k: int = 0xffff_ffff;
    assert(b * m <= 140 * k) by (nonlinear_arith)
        requires
            b <= 140,
            m <= k,
    ;
    assert(h * (b * m) <= (15 * (k * k)) * (140 * k)) by (nonlinear_arith)
        requires
            0 <= h <= 15 * (k * k),
            0 <= b * m <= 140 * k,
    ;
    assert((15 * (k * k)) * (140 * k) * 60 <= u128::MAX);
    assert(h * (b * m) * 60 == h * b * m * 60) by (nonlinear_arith);
}

/// Computes meeting costs against one rate table.
pub struct Calculator<'a> {
    config: &'a Config,
}

impl<'a> Calculator<'a> {
    pub closed spec fn table(self) -> Config {
        *self.config
    }

    pub fn new(config: &'a Config) -> (r: Calculator<'a>)
        ensures
            r.table() == *config,
    {
        Calculator { config }
    }

    /// Rate times count summed over the roster's roles, in cents per hour.
    fn hourly(&self, attendees: &Roster) -> (r: u128)
        ensures
            r as nat == hourly_total(self.table(), *attendees),
    {
        let mut sum: u128 = 0;
        let mut i: usize = 0;
        while i < ROLE_COUNT
            invariant
                i <= ROLE_COUNT,
                sum as nat == hourly_sum(self.table(), *attendees, i as int),
            decreases ROLE_COUNT - i,
        {
            let role = Role::from_index(i);
            let rate = self.config.get_rate(&role);
            let count = attendees.get(role);
            proof {
                lemma_hourly_sum_bound(self.table(), *attendees, i as int + 1);
                assert((rate as int) * (count as int) <= 0xffff_ffff * 0xffff_ffff) by (nonlinear_arith)
                    requires
                        rate <= 0xffff_ffff,
                        count <= 0xffff_ffff,
                ;
                assert((i as int + 1) * (0xffff_ffff * 0xffff_ffff) <= 15 * (0xffff_ffff * 0xffff_ffff))
                    by (nonlinear_arith)
                    requires
                        i < 15,
                ;
                assert(hourly_sum(self.table(), *attendees, i as int + 1) == sum + (rate as int) * (
                count as int));
            }
            sum = sum + (rate as u128) * (count as u128);
            i = i + 1;
        }
        sum
    }

    /// Cost per minute in cost units: the hourly sum over sixty minutes, with
    /// the benefits factor and then the multiplier applied.
    pub fn cost_per_minute(&self, attendees: &Roster) -> (r: u128)
        ensures
            r as nat == spec_cost_per_minute(self.table(), *attendees),
    {
        proof {
            lemma_cost_per_minute_bound(self.table(), *attendees);
        }
        let hourly = self.hourly(attendees);
        let benefits: u128 = if self.config.include_benefits() { BENEFITS_PERCENT as u128 } else { 100 };
        let multiplier = self.config.context_switch_percent() as u128;
        proof {
            assert(hourly * (benefits * multiplier) * 60 == hourly * benefits * multiplier * 60)
                by (nonlinear_arith);
            assert(benefits * multiplier <= 140 * 0xffff_ffff) by (nonlinear_arith)
                requires
                    benefits <= 140,
                    multiplier <= 0xffff_ffff,
            ;
        }
        hourly * (benefits * multiplier) * 60
    }

    /// Cost of `attendees` meeting from `start_time` to `end_time`, in cost
    /// units, or `None` where it exceeds `u128::MAX`.
    pub fn try_calculate_cost(&self, start_time: Timestamp, end_time: Timestamp, attendees: &Roster) -> (r: Option<u128>)
        requires
            i64::MIN <= end_time.secs - start_time.secs <= i64::MAX,
        ensures
            r is Some <==> spec_cost(self.table(), *attendees, start_time.secs as int, end_time.secs as int) <= u128::MAX,
            r matches Some(c) ==> c as nat == spec_cost(self.table(), *attendees, start_time.secs as int, end_time.secs as int),
    {
        let minutes = crate::models::Span::seconds(end_time.secs - start_time.secs).num_minutes();
        if minutes <= 0 {
            return Some(0);
        }
        let per_minute = self.cost_per_minute(attendees);
        per_minute.checked_mul(minutes as u128)
    }

    /// Cost of `attendees` meeting from `start_time` to `end_time`, in cost
    /// units; zero when the interval is shorter than one whole minute or
    /// negative.
    pub fn calculate_cost(&self, start_time: Timestamp, end_time: Timestamp, attendees: &Roster) -> (r: u128)
        requires
            i64::MIN <= end_time.secs - start_time.secs <= i64::MAX,
            spec_cost(self.table(), *attendees, start_time.secs as int, end_time.secs as int) <= u128::MAX,
        ensures
            r as nat == spec_cost(self.table(), *attendees, start_time.secs as int, end_time.secs as int),
    {
        let minutes = crate::models::Span::seconds(end_time.secs - start_time.secs).num_minutes();
        if minutes <= 0 {
            return 0;
        }
        let per_minute = self.cost_per_minute(attendees);
        per_minute * (minutes as u128)
    }

    /// Sets the meeting's cost from its interval and roster.
    pub fn update_meeting_cost(&self, meeting: &mut Meeting)
        requires
            i64::MIN <= old(meeting).end_time.secs - old(meeting).start_time.secs <= i64::MAX,
            spec_cost(self.table(), old(meeting).attendees, old(meeting).start_time.secs as int,
                old(meeting).end_time.secs as int) <= u128::MAX,
        ensures
            final(meeting).cost as nat == spec_cost(self.table(), old(meeting).attendees,
                old(meeting).start_time.secs as int, old(meeting).end_time.secs as int),
            final(meeting).id == old(meeting).id,
            final(meeting).start_time == old(meeting).start_time,
            final(meeting).end_time == old(meeting).end_time,
            final(meeting).attendees == old(meeting).attendees,
            final(meeting).notes == old(meeting).notes,
    {
        meeting.cost = self.calculate_cost(meeting.start_time, meeting.end_time, &meeting.attendees);
    }
}

/// Two tables with the same rate for every role give the same hourly sum.
pub proof fn lemma_hourly_sum_same_rates(a: Config, b: Config, roster: Roster, n: int)
    requires
        forall|role: Role| a.rate(role) == b.rate(role),
    ensures
        hourly_sum(a, roster, n) == hourly_sum(b, roster, n),
    decreases n,
{
    if n > 0 {
        lemma_hourly_sum_same_rates(a, b, roster, n - 1);
    }
}

/// With no benefits and a multiplier of one, cost is linear in the length of
/// the interval: twice the whole minutes cost twice as much.
pub proof fn lemma_cost_linear(config: Config, roster: Roster, start: int, minutes: int)
    requires
        !config.benefits(),
        config.multiplier() == 100,
    ensures
        spec_cost(config, roster, start, start + 2 * minutes * 60) == 2 * spec_cost(
            config,
            roster,
            start,
            start + minutes * 60,
        ),
{
    assert(whole_minutes(2 * minutes * 60) == 2 * minutes);
    assert(whole_minutes(minutes * 60) == minutes);
    let p = spec_cost_per_minute(config, roster);
    if minutes > 0 {
        let mi: nat = minutes as nat;
        assert((2 * minutes) as nat == 2 * mi);
        assert(p * (2 * mi) == 2 * (p * mi)) by (nonlinear_arith);
    }
}

/// An interval that does not end after it starts costs nothing.
pub proof fn lemma_cost_zero_when_not_after(config: Config, roster: Roster, start: int, end: int)
    requires
        end <= start,
    ensures
        spec_cost(config, roster, start, end) == 0,
{
}

/// Sixty times the cost per minute is the cost of one hour from any start.
pub proof fn lemma_hour_matches_rate(config: Config, roster: Roster, t: int)
    ensures
        spec_cost_per_minute(config, roster) * 60 == spec_cost(config, roster, t, t + 3600),
{
    assert(whole_minutes(3600) == 60);
}

/// Including benefits multiplies the cost by exactly 140 hundredths,
/// everything else being equal.
pub proof fn lemma_benefits_factor(with: Config, without: Config, roster: Roster, start: int, end: int)
    requires
        forall|role: Role| with.rate(role) == without.rate(role),
        with.multiplier() == without.multiplier(),
        with.benefits(),
        !without.benefits(),
    ensures
        spec_cost(with, roster, start, end) * 100 == spec_cost(without, roster, start, end) * 140,
{
    lemma_hourly_sum_same_rates(with, without, roster, ROLE_COUNT as int);
    let h = hourly_total(with, roster);
    let m = with.multiplier();
    let mins = whole_minutes(end - start);
    if mins > 0 {
        assert((h * (140 * m) * 60) * (mins as nat) * 100 == (h * (100 * m) * 60) * (mins as nat) * 140)
            by (nonlinear_arith);
    }
}

/// The multiplier scales the cost linearly: a table with multiplier `m`
/// (hundredths) costs `m / 100` times one with a multiplier of one, everything
/// else being equal.
pub proof fn lemma_multiplier_scales(scaled: Config, unit: Config, roster: Roster, start: int, end: int)
    requires
        forall|role: Role| scaled.rate(role) == unit.rate(role),
        scaled.benefits() == unit.benefits(),
        unit.multiplier() == 100,
    ensures
        spec_cost(scaled, roster, start, end) * 100 == spec_cost(unit, roster, start, end)
            * scaled.multiplier(),
{
    lemma_hourly_sum_same_rates(scaled, unit, roster, ROLE_COUNT as int);
    let h = hourly_total(scaled, roster);
    let m = scaled.multiplier();
    let b: nat = if scaled.benefits() { 140nat } else { 100nat };
    let mins = whole_minutes(end - start);
    if mins > 0 {
        assert((h * (b * m) * 60) * (mins as nat) * 100 == (h * (b * 100) * 60) * (mins as nat) * m)
            by (nonlinear_arith);
    }
}

/// Benefits and multiplier compose multiplicatively: with both, the cost is
/// 140 hundredths times `m` hundredths of the cost with neither.
pub proof fn lemma_benefits_then_multiplier(both: Config, plain: Config, roster: Roster, start: int, end: int)
    requires
        forall|role: Role| both.rate(role) == plain.rate(role),
        both.benefits(),
        !plain.benefits(),
        plain.multiplier() == 100,
    ensures
        spec_cost(both, roster, start, end) * 10000 == spec_cost(plain, roster, start, end) * 140
            * both.multiplier(),
{
    lemma_hourly_sum_same_rates(both, plain, roster, ROLE_COUNT as int);
    let h = hourly_total(both, roster);
    let m = both.multiplier();
    let mins = whole_minutes(end - start);
    if mins > 0 {
        let k: nat = mins as nat;
        assert(spec_cost(both, roster, start, end) == h * (140 * m) * 60 * k);
        assert(spec_cost(plain, roster, start, end) == h * (100 * 100) * 60 * k);
        let cb = spec_cost(both, roster, start, end);
        let cp = spec_cost(plain, roster, start, end);
        assert(cb * 10000 == cp * 140 * m) by (nonlinear_arith)
            requires
                cb == h * (140 * m) * 60 * k,
                cp == h * (100 * 100) * 60 * k,
        ;
    } else {
        assert(spec_cost(plain, roster, start, end) == 0);
        assert(0 * 140 * m == 0) by (nonlinear_arith);
    }
}

} // verus!
