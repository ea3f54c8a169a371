//! Per-rule configuration: wall time, duration, decimation interval,
//! optional private bookends and label. Immutable once a rule is registered.

use vstd::prelude::*;
use crate::errors::ScheduleError;
use crate::occurrence::spec_label_view;
use crate::time_of_day::{TimeOfDay, TimeOfDayModel};
use crate::zone::BOOKEND_TS_LIMIT;

verus! {

/// Upper bound on a decimation interval: far above any sensible stride,
/// while every index product stays within machine integers.
pub const INTERVAL_LIMIT: i64 = 1_000_000_000;

/// The mathematical value of a [`SeriesOptions`].
pub struct SeriesOptionsModel {
    pub time_of_day: TimeOfDayModel,
    pub duration: int,
    pub interval: int,
    pub starts_at: Option<int>,
    pub ends_at: Option<int>,
    pub label: Option<Seq<char>>,
}

impl SeriesOptionsModel {
    /// The invariant every registered rule's options satisfy: a well-formed
    /// wall time, a non-negative bounded duration, an interval of at least 1,
    /// and private bookends within the supported timestamp range.
    pub open spec fn wf(self) -> bool {
        &&& self.time_of_day.wf()
        &&& 0 <= self.duration <= BOOKEND_TS_LIMIT as int
        &&& 1 <= self.interval <= INTERVAL_LIMIT as int
        &&& (self.starts_at matches Some(t) ==> -(BOOKEND_TS_LIMIT as int) <= t <= BOOKEND_TS_LIMIT as int)
        &&& (self.ends_at matches Some(t) ==> -(BOOKEND_TS_LIMIT as int) <= t <= BOOKEND_TS_LIMIT as int)
    }
}

/// The abstract value of an optional timestamp.
pub open spec fn spec_opt_i64_view(o: Option<i64>) -> Option<int> {
    match o {
        Some(v) => Some(v as int),
        None => None,
    }
}

/// Configuration shared by every rule kind: the wall time each occurrence
/// starts at, its duration, the decimation interval (every Nth generated
/// occurrence is kept), optional private bookends that override the
/// schedule's own, and an optional label stamped onto each occurrence.
#[derive(Debug)]
pub struct SeriesOptions {
    pub time_of_day: TimeOfDay,
    pub duration_in_seconds: i64,
    pub interval: i64,
    pub starts_at_unix_timestamp: Option<i64>,
    pub ends_at_unix_timestamp: Option<i64>,
    pub label: Option<String>,
}

impl View for SeriesOptions {
    type V = SeriesOptionsModel;

    open spec fn view(&self) -> SeriesOptionsModel {
        SeriesOptionsModel {
            time_of_day: self.time_of_day@,
            duration: self.duration_in_seconds as int,
            interval: self.interval as int,
            starts_at: spec_opt_i64_view(self.starts_at_unix_timestamp),
            ends_at: spec_opt_i64_view(self.ends_at_unix_timestamp),
            label: spec_label_view(self.label),
        }
    }
}

impl SeriesOptions {
    /// Builds rule options, rejecting a negative or oversized duration, an
    /// interval below 1 or oversized, and private bookends beyond the
    /// supported timestamp magnitude.
    pub fn new(
        time_of_day: TimeOfDay,
        duration_in_seconds: i64,
        interval: i64,
        starts_at_unix_timestamp: Option<i64>,
        ends_at_unix_timestamp: Option<i64>,
        label: Option<String>,
    ) -> (r: Result<SeriesOptions, ScheduleError>)
        requires
            time_of_day@.wf(),
        ensures
            r matches Ok(o) ==> o@ == (SeriesOptionsModel {
                time_of_day: time_of_day@,
                duration: duration_in_seconds as int,
                interval: interval as int,
                starts_at: spec_opt_i64_view(starts_at_unix_timestamp),
                ends_at: spec_opt_i64_view(ends_at_unix_timestamp),
                label: spec_label_view(label),
            }),
            r matches Ok(o) ==> o@.wf(),
            r is Ok <==> {
                &&& 0 <= duration_in_seconds <= BOOKEND_TS_LIMIT
                &&& 1 <= interval <= INTERVAL_LIMIT
                &&& (starts_at_unix_timestamp matches Some(t) ==> -BOOKEND_TS_LIMIT <= t <= BOOKEND_TS_LIMIT)
                &&& (ends_at_unix_timestamp matches Some(t) ==> -BOOKEND_TS_LIMIT <= t <= BOOKEND_TS_LIMIT)
            },
            r matches Err(e) ==> (e == ScheduleError::InvalidDuration
                || e == ScheduleError::InvalidInterval
                || e == ScheduleError::BookendOutOfRange),
    {
        if duration_in_seconds < 0 || duration_in_seconds > BOOKEND_TS_LIMIT {
            return Err(ScheduleError::InvalidDuration);
        }
        if interval < 1 || interval > INTERVAL_LIMIT {
            return Err(ScheduleError::InvalidInterval);
        }
        if let Some(t) = starts_at_unix_timestamp {
            if t < -BOOKEND_TS_LIMIT || t > BOOKEND_TS_LIMIT {
                return Err(ScheduleError::BookendOutOfRange);
            }
        }
        if let Some(t) = ends_at_unix_timestamp {
            if t < -BOOKEND_TS_LIMIT || t > BOOKEND_TS_LIMIT {
                return Err(ScheduleError::BookendOutOfRange);
            }
        }
        Ok(SeriesOptions {
            time_of_day,
            duration_in_seconds,
            interval,
            starts_at_unix_timestamp,
            ends_at_unix_timestamp,
            label,
        })
    }

    /// The wall time each occurrence of the rule starts at.
    pub fn time_of_day(&self) -> (r: &TimeOfDay)
        ensures
            r@ == self@.time_of_day,
    {
        &self.time_of_day
    }

    /// Each occurrence's duration, in seconds.
    pub fn duration_in_seconds(&self) -> (r: i64)
        ensures
            r as int == self@.duration,
    {
        self.duration_in_seconds
    }

    /// The decimation interval: every Nth generated occurrence is kept.
    pub fn interval(&self) -> (r: i64)
        ensures
            r as int == self@.interval,
    {
        self.interval
    }
}

} // verus!
