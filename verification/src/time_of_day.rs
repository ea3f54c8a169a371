//! A wall-clock time of day: hour, minute and second, independent of any date.

use vstd::prelude::*;
use crate::errors::ScheduleError;

verus! {

/// The mathematical value of a [`TimeOfDay`].
pub struct TimeOfDayModel {
    pub hour: int,
    pub minute: int,
    pub second: int,
}

impl TimeOfDayModel {
    /// The wall-clock ranges. A second of 60 is tolerated for leap-second
    /// inputs; it is never produced by the engine.
    pub open spec fn wf(self) -> bool {
        0 <= self.hour < 24 && 0 <= self.minute < 60 && 0 <= self.second <= 60
    }
}

/// A date-independent local time: hour, minute, second.
#[derive(Clone, Copy, Debug, PartialEq, Eq, Structural)]
pub struct TimeOfDay {
    pub hour: u32,
    pub minute: u32,
    pub second: u32,
}

impl View for TimeOfDay {
    type V = TimeOfDayModel;

    open spec fn view(&self) -> TimeOfDayModel {
        TimeOfDayModel {
            hour: self.hour as int,
            minute: self.minute as int,
            second: self.second as int,
        }
    }
}

impl TimeOfDay {
    /// Builds a wall time, rejecting values outside the wall-clock ranges.
    /// A second of 60 is accepted for leap-second inputs.
    pub fn new(hour: u32, minute: u32, second: u32) -> (r: Result<TimeOfDay, ScheduleError>)
        ensures
            (hour < 24 && minute < 60 && second <= 60) <==> r is Ok,
            r matches Ok(t) ==> t@ == (TimeOfDayModel {
                hour: hour as int,
                minute: minute as int,
                second: second as int,
            }),
            r matches Ok(t) ==> t@.wf(),
            r matches Err(e) ==> e == ScheduleError::InvalidTimeOfDay,
    {
        if hour < 24 && minute < 60 && second <= 60 {
            Ok(TimeOfDay { hour, minute, second })
        } else {
            Err(ScheduleError::InvalidTimeOfDay)
        }
    }
}

} // verus!
