//! An ad hoc absolute query window, distinct from a schedule's own
//! generation bookends; answers containment and overlap questions about
//! occurrences.

use vstd::prelude::*;
use crate::occurrence::{Occurrence, spec_spans_overlap};

verus! {

/// An absolute half-open query window `[starts_at, ends_at)`.
#[derive(Clone, Copy, Debug, PartialEq, Eq, Structural)]
pub struct Interval {
    pub starts_at_unix_timestamp: i64,
    pub ends_at_unix_timestamp: i64,
}

/// Whether the window `[s, e)` wholly contains the span `[start, end)`.
pub open spec fn spec_interval_contains(s: int, e: int, start: int, end: int) -> bool {
    s <= start && e >= end
}

impl Interval {
    /// Builds a query window from its absolute bookends.
    pub fn new(starts_at_unix_timestamp: i64, ends_at_unix_timestamp: i64) -> (r: Interval)
        ensures
            r.starts_at_unix_timestamp == starts_at_unix_timestamp,
            r.ends_at_unix_timestamp == ends_at_unix_timestamp,
    {
        Interval { starts_at_unix_timestamp, ends_at_unix_timestamp }
    }

    /// The window's start instant.
    pub fn starts_at(&self) -> (r: i64)
        ensures
            r == self.starts_at_unix_timestamp,
    {
        self.starts_at_unix_timestamp
    }

    /// The window's end instant.
    pub fn ends_at(&self) -> (r: i64)
        ensures
            r == self.ends_at_unix_timestamp,
    {
        self.ends_at_unix_timestamp
    }

    /// Whether the occurrence lies wholly inside this window.
    pub fn contains(&self, occurrence: &Occurrence) -> (r: bool)
        ensures
            r == spec_interval_contains(
                self.starts_at_unix_timestamp as int,
                self.ends_at_unix_timestamp as int,
                occurrence@.start,
                occurrence@.end,
            ),
    {
        self.starts_at_unix_timestamp <= occurrence.starts_at_unix_timestamp
            && self.ends_at_unix_timestamp >= occurrence.ends_at_unix_timestamp
    }

    /// Whether the occurrence intersects this window at all.
    pub fn overlaps_with(&self, occurrence: &Occurrence) -> (r: bool)
        ensures
            r == spec_spans_overlap(
                self.starts_at_unix_timestamp as int,
                self.ends_at_unix_timestamp as int,
                occurrence@.start,
                occurrence@.end,
            ),
    {
        self.starts_at_unix_timestamp < occurrence.ends_at_unix_timestamp
            && occurrence.starts_at_unix_timestamp < self.ends_at_unix_timestamp
    }
}

} // verus!
