//! Resolving a meeting's interval from any two of start, end and duration.
use vstd::prelude::*;
use crate::error::{Failure, MeterError};
use crate::models::{ClockTime, Span, Timestamp, SECS_PER_DAY, SECS_PER_HOUR};
use crate::text::trim_ws;
use crate::time_parser::{clock_spec, duration_spec, human_reading, parse_duration, parse_time};

verus! {

/// Largest day number (days since 1970-01-01, either way) that a date may have.
pub const MAX_DAY: i64 = 100_000_000;

/// A resolved interval; `assumed_one_hour` is set when only a start was given
/// and the meeting was taken to last one hour.
#[derive(Debug, Clone, Copy, PartialEq, Eq, Structural)]
pub struct ResolvedInterval {
    pub start: Timestamp,
    pub end: Timestamp,
    pub assumed_one_hour: bool,
}

/// Whether `now` (seconds) and `today` (a day number) are in range.
pub open spec fn clock_inputs_ok(now: int, today: int) -> bool {
    -MAX_DAY <= today <= MAX_DAY && -MAX_DAY * SECS_PER_DAY <= now <= MAX_DAY * SECS_PER_DAY
}

pub open spec fn checked_interval(start: int, end: int, assumed: bool) -> Result<(int, int, bool), Failure> {
    if end <= start {
        Err(Failure::EndBeforeStart)
    } else {
        Ok((start, end, assumed))
    }
}

/// The interval for the given parts: times of day (seconds since midnight)
/// on day `today`, a duration in seconds, and the instant `now`.
pub open spec fn resolve_spec(
    start: Option<int>,
    end: Option<int>,
    duration: Option<int>,
    now: int,
    today: int,
) -> Result<(int, int, bool), Failure> {
    let day = today * SECS_PER_DAY;
    match (start, end, duration) {
        (Some(_), Some(_), Some(_)) => Err(Failure::AmbiguousIntervalArguments),
        (None, _, None) => Err(Failure::MissingIntervalArguments),
        (Some(s), Some(e), None) => checked_interval(day + s, day + e, false),
        (Some(s), None, Some(d)) => checked_interval(day + s, day + s + d, false),
        (None, Some(e), Some(d)) => checked_interval(day + e - d, day + e, false),
        (None, None, Some(d)) => checked_interval(now - d, now, false),
        (Some(s), None, None) => checked_interval(day + s, day + s + SECS_PER_HOUR, true),
    }
}

/// Whether `r` is what `spec` describes.
pub open spec fn interval_result(spec: Result<(int, int, bool), Failure>, r: Result<ResolvedInterval, MeterError>) -> bool {
    match r {
        Ok(i) => spec == Ok::<(int, int, bool), Failure>(
            (i.start.secs as int, i.end.secs as int, i.assumed_one_hour),
        ),
        Err(e) => spec == Err::<(int, int, bool), Failure>(e@),
    }
}

pub open spec fn clock_secs(c: Option<ClockTime>) -> Option<int> {
    match c {
        Some(t) => Some(t.secs_of_day()),
        None => None,
    }
}

pub open spec fn span_secs(d: Option<Span>) -> Option<int> {
    match d {
        Some(x) => Some(x.secs as int),
        None => None,
    }
}

/// Resolves an interval from already-read parts: start and end are times of
/// day on day `today`; with a duration only, the meeting ends at `now`; with a
/// start only, it lasts one hour. Fails when all three or too few are given,
/// and when the result does not end after it starts.
pub fn resolve_interval(
    start: Option<ClockTime>,
    end: Option<ClockTime>,
    duration: Option<Span>,
    now: Timestamp,
    today: i64,
) -> (r: Result<ResolvedInterval, MeterError>)
    requires
        clock_inputs_ok(now.secs as int, today as int),
        start matches Some(c) ==> c.valid(),
        end matches Some(c) ==> c.valid(),
        duration matches Some(d) ==> 0 <= d.secs <= crate::time_parser::MAX_SPAN_SECS,
    ensures
        interval_result(
            resolve_spec(clock_secs(start), clock_secs(end), span_secs(duration), now.secs as int, today as int),
            r,
        ),
{
    let day = today * SECS_PER_DAY;
    let (s, e, assumed): (i64, i64, bool) = match (start, end, duration) {
        (Some(_), Some(_), Some(_)) => {
            return Err(MeterError::AmbiguousIntervalArguments);
        },
        (None, _, None) => {
            return Err(MeterError::MissingIntervalArguments);
        },
        (Some(sc), Some(ec), None) => (day + sc.seconds_of_day(), day + ec.seconds_of_day(), false),
        (Some(sc), None, Some(d)) => {
            let s = day + sc.seconds_of_day();
            (s, s + d.secs, false)
        },
        (None, Some(ec), Some(d)) => {
            let e = day + ec.seconds_of_day();
            (e - d.secs, e, false)
        },
        (None, None, Some(d)) => (now.secs - d.secs, now.secs, false),
        (Some(sc), None, None) => {
            let s = day + sc.seconds_of_day();
            (s, s + SECS_PER_HOUR, true)
        },
    };
    if e <= s {
        return Err(MeterError::EndBeforeStart);
    }
    Ok(ResolvedInterval { start: Timestamp { secs: s }, end: Timestamp { secs: e }, assumed_one_hour: assumed })
}

pub open spec fn text_of(o: Option<&str>) -> Option<Seq<char>> {
    match o {
        Some(s) => Some(s@),
        None => None,
    }
}

/// What reading an optional clock-time text gives.
pub open spec fn read_clock(o: Option<Seq<char>>) -> Result<Option<int>, Failure> {
    match o {
        None => Ok(None),
        Some(s) => match clock_spec(trim_ws(s)) {
            Ok((h, m)) => Ok(Some(h * 3600 + m * 60)),
            Err(f) => Err(f),
        },
    }
}

/// What reading an optional duration text gives.
pub open spec fn read_duration(o: Option<Seq<char>>) -> Result<Option<int>, Failure> {
    match o {
        None => Ok(None),
        Some(s) => match duration_spec(trim_ws(s), human_reading(trim_ws(s))) {
            Some(d) => Ok(Some(d)),
            None => Err(Failure::InvalidDurationFormat(trim_ws(s))),
        },
    }
}

/// The interval that the texts give: the argument combination is checked
/// first, then the given texts are read in the order start, end, duration.
pub open spec fn interval_spec(
    start: Option<Seq<char>>,
    end: Option<Seq<char>>,
    duration: Option<Seq<char>>,
    now: int,
    today: int,
) -> Result<(int, int, bool), Failure> {
    if start is Some && end is Some && duration is Some {
        Err(Failure::AmbiguousIntervalArguments)
    } else if start is None && duration is None {
        Err(Failure::MissingIntervalArguments)
    } else {
        match read_clock(start) {
            Err(f) => Err(f),
            Ok(s) => match read_clock(end) {
                Err(f) => Err(f),
                Ok(e) => match read_duration(duration) {
                    Err(f) => Err(f),
                    Ok(d) => resolve_spec(s, e, d, now, today),
                },
            },
        }
    }
}

fn read_clock_text(o: Option<&str>) -> (r: Result<Option<ClockTime>, MeterError>)
    ensures
        match r {
            Ok(c) => read_clock(text_of(o)) == Ok::<Option<int>, Failure>(clock_secs(c)) && (c matches Some(
                t,
            ) ==> t.valid()),
            Err(e) => read_clock(text_of(o)) == Err::<Option<int>, Failure>(e@),
        },
{
    match o {
        None => Ok(None),
        Some(s) => match parse_time(s) {
            Ok(c) => Ok(Some(c)),
            Err(e) => Err(e),
        },
    }
}

fn read_duration_text(o: Option<&str>) -> (r: Result<Option<Span>, MeterError>)
    ensures
        match r {
            Ok(d) => read_duration(text_of(o)) == Ok::<Option<int>, Failure>(span_secs(d)) && (d matches Some(
                x,
            ) ==> 0 <= x.secs <= crate::time_parser::MAX_SPAN_SECS),
            Err(e) => read_duration(text_of(o)) == Err::<Option<int>, Failure>(e@),
        },
{
    match o {
        None => Ok(None),
        Some(s) => match parse_duration(s) {
            Ok(d) => {
                proof {
                    crate::time_parser::lemma_duration_in_range(trim_ws(s@), human_reading(trim_ws(s@)));
                }
                Ok(Some(d))
            },
            Err(e) => Err(e),
        },
    }
}

/// Resolves a meeting's interval from the start, end and duration texts, with
/// `now` the current instant and `today` the current day number.
pub fn calculate_start_end_times(
    start: Option<&str>,
    end: Option<&str>,
    duration: Option<&str>,
    now: Timestamp,
    today: i64,
) -> (r: Result<ResolvedInterval, MeterError>)
    requires
        clock_inputs_ok(now.secs as int, today as int),
    ensures
        interval_result(
            interval_spec(text_of(start), text_of(end), text_of(duration), now.secs as int, today as int),
            r,
        ),
{
    if start.is_some() && end.is_some() && duration.is_some() {
        return Err(MeterError::AmbiguousIntervalArguments);
    }
    if start.is_none() && duration.is_none() {
        return Err(MeterError::MissingIntervalArguments);
    }
    let s = match read_clock_text(start) {
        Ok(x) => x,
        Err(e) => {
            return Err(e);
        },
    };
    let e = match read_clock_text(end) {
        Ok(x) => x,
        Err(err) => {
            return Err(err);
        },
    };
    let d = match read_duration_text(duration) {
        Ok(x) => x,
        Err(err) => {
            return Err(err);
        },
    };
    resolve_interval(s, e, d, now, today)
}

} // verus!
