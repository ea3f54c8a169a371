//! Weekdays, their Monday-based numbering, and the parsing of weekday
//! tokens supplied at rule registration.

use vstd::prelude::*;
use crate::errors::ScheduleError;

verus! {

/// A day of the week.
#[derive(Clone, Copy, Debug, PartialEq, Eq, Structural)]
pub enum Weekday {
    Monday,
    Tuesday,
    Wednesday,
    Thursday,
    Friday,
    Saturday,
    Sunday,
}

impl Weekday {
    /// The Monday-based number of this weekday: 0 for Monday through 6 for
    /// Sunday, matching the local-weekday numbers the zone boundary yields.
    pub open spec fn spec_number(self) -> int {
        match self {
            Weekday::Monday => 0,
            Weekday::Tuesday => 1,
            Weekday::Wednesday => 2,
            Weekday::Thursday => 3,
            Weekday::Friday => 4,
            Weekday::Saturday => 5,
            Weekday::Sunday => 6,
        }
    }

    /// The Monday-based number, 0..=6.
    pub fn number(&self) -> (r: u32)
        ensures
            r as int == self.spec_number(),
            r < 7,
    {
        match self {
            Weekday::Monday => 0,
            Weekday::Tuesday => 1,
            Weekday::Wednesday => 2,
            Weekday::Thursday => 3,
            Weekday::Friday => 4,
            Weekday::Saturday => 5,
            Weekday::Sunday => 6,
        }
    }

    /// The weekday named by a token, if any: the lowercase English day
    /// names are recognized.
    pub open spec fn spec_from_token(s: Seq<char>) -> Option<Weekday> {
        if s == "monday"@ {
            Some(Weekday::Monday)
        } else if s == "tuesday"@ {
            Some(Weekday::Tuesday)
        } else if s == "wednesday"@ {
            Some(Weekday::Wednesday)
        } else if s == "thursday"@ {
            Some(Weekday::Thursday)
        } else if s == "friday"@ {
            Some(Weekday::Friday)
        } else if s == "saturday"@ {
            Some(Weekday::Saturday)
        } else if s == "sunday"@ {
            Some(Weekday::Sunday)
        } else {
            None
        }
    }

    /// Parses a weekday token: the lowercase English day names are
    /// recognized, anything else is an unknown-weekday configuration error.
    pub fn from_token(s: &str) -> (r: Result<Weekday, ScheduleError>)
        ensures
            r matches Ok(w) ==> Self::spec_from_token(s@) == Some(w),
            r is Err ==> Self::spec_from_token(s@) is None,
            r matches Err(e) ==> e == ScheduleError::UnknownWeekday,
    {
        if str_eq(s, "monday") {
            Ok(Weekday::Monday)
        } else if str_eq(s, "tuesday") {
            Ok(Weekday::Tuesday)
        } else if str_eq(s, "wednesday") {
            Ok(Weekday::Wednesday)
        } else if str_eq(s, "thursday") {
            Ok(Weekday::Thursday)
        } else if str_eq(s, "friday") {
            Ok(Weekday::Friday)
        } else if str_eq(s, "saturday") {
            Ok(Weekday::Saturday)
        } else if str_eq(s, "sunday") {
            Ok(Weekday::Sunday)
        } else {
            Err(ScheduleError::UnknownWeekday)
        }
    }
}

/// Character-by-character string equality.
fn str_eq(a: &str, b: &str) -> (r: bool)
    ensures
        r == (a@ == b@),
{
    let a_len = a.unicode_len();
    let b_len = b.unicode_len();
    if a_len != b_len {
        assert(a@.len() != b@.len());
        return false;
    }
    let mut i: usize = 0;
    while i < a_len
        invariant
            i <= a_len,
            a_len == a@.len(),
            b_len == b@.len(),
            a_len == b_len,
            forall|j: int| 0 <= j < i ==> a@[j] == b@[j],
        decreases a_len - i,
    {
        if a.get_char(i) != b.get_char(i) {
            assert(a@[i as int] != b@[i as int]);
            return false;
        }
        i = i + 1;
    }
    assert(a@ =~= b@);
    true
}

} // verus!
