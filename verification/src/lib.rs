//! A timezone-aware recurring-event expansion engine.
//!
//! A [`schedule::Schedule`] owns a generation window anchored to a named IANA
//! time zone, a set of recurrence rules and a set of excluded intervals, and
//! answers queries for the concrete occurrences the rules produce: the full
//! expansion, the occurrences contained within an ad hoc interval, and the
//! occurrences merely overlapping one.

pub mod clock;
pub mod errors;
pub mod exclusion;
pub mod expansion;
pub mod filtering;
pub mod interval;
pub mod occurrence;
pub mod recurrence;
pub mod schedule;
pub mod series_options;
pub mod sorted_exclusions;
pub mod sorting;
pub mod time_of_day;
pub mod weekday;
pub mod zone;
