use vstd::prelude::*;

verus! {

/// The failures that parsing, resolution and validation report.
#[derive(Debug)]
pub enum MeterError {
    /// A clock time that does not have the shape `H`, `H:MM`, with an optional `am`/`pm`.
    InvalidTimeFormat(String),
    /// The hour, after the `am`/`pm` adjustment, is 24 or more.
    InvalidHour(u32),
    /// The minute is 60 or more.
    InvalidMinute(u32),
    /// A duration that none of the accepted forms reads, or that reads as zero.
    InvalidDurationFormat(String),
    /// Start, end and duration were all given.
    AmbiguousIntervalArguments,
    /// Too little was given to resolve an interval.
    MissingIntervalArguments,
    /// The resolved interval does not end after it starts.
    EndBeforeStart,
    /// An operation that needs at least one attendee got none.
    EmptyAttendeeRoster,
    /// A role name that no role answers to.
    UnknownRole(String),
    /// A cost that does not fit in the cost representation.
    CostOverflow,
}

/// What a `MeterError` says, with its text as a sequence of characters.
pub enum Failure {
    InvalidTimeFormat(Seq<char>),
    InvalidHour(int),
    InvalidMinute(int),
    InvalidDurationFormat(Seq<char>),
    AmbiguousIntervalArguments,
    MissingIntervalArguments,
    EndBeforeStart,
    EmptyAttendeeRoster,
    UnknownRole(Seq<char>),
    CostOverflow,
}

impl View for MeterError {
    type V = Failure;

    open spec fn view(&self) -> Failure {
        match self {
            MeterError::InvalidTimeFormat(s) => Failure::InvalidTimeFormat(s@),
            MeterError::InvalidHour(h) => Failure::InvalidHour(*h as int),
            MeterError::InvalidMinute(m) => Failure::InvalidMinute(*m as int),
            MeterError::InvalidDurationFormat(s) => Failure::InvalidDurationFormat(s@),
            MeterError::AmbiguousIntervalArguments => Failure::AmbiguousIntervalArguments,
            MeterError::MissingIntervalArguments => Failure::MissingIntervalArguments,
            MeterError::EndBeforeStart => Failure::EndBeforeStart,
            MeterError::EmptyAttendeeRoster => Failure::EmptyAttendeeRoster,
            MeterError::UnknownRole(s) => Failure::UnknownRole(s@),
            MeterError::CostOverflow => Failure::CostOverflow,
        }
    }
}

} // verus!
