//! Configuration errors: the rejections that schedule construction and rule
//! registration perform. Calendar and zone edge cases are never surfaced as
//! errors; they are resolved by the clock heuristics instead.

use vstd::prelude::*;

verus! {

/// A configuration problem detected when a schedule is built or a rule or
/// time of day is registered. Generation itself never fails.
#[derive(Clone, Copy, Debug, PartialEq, Eq, Structural)]
pub enum ScheduleError {
    /// The supplied name is not a recognized IANA time zone.
    UnrecognizedTimeZone,
    /// The supplied weekday token names no weekday.
    UnknownWeekday,
    /// An hour, minute or second lies outside the wall-clock ranges.
    InvalidTimeOfDay,
    /// A duration is negative or beyond the supported magnitude.
    InvalidDuration,
    /// An interval (every Nth kept occurrence) is below 1 or beyond the
    /// supported magnitude.
    InvalidInterval,
    /// A private bookend lies beyond the supported timestamp magnitude.
    BookendOutOfRange,
    /// A day of month lies outside 1..=31.
    InvalidDayOfMonth,
    /// A day of year lies outside 1..=366.
    InvalidDayOfYear,
    /// A signed nth-weekday index has magnitude above 5: no month holds more
    /// than five occurrences of one weekday.
    InvalidNthWeekday,
}

} // verus!
