//! An excluded half-open interval: any occurrence overlapping it is
//! suppressed from query results.

use vstd::prelude::*;
use crate::occurrence::{Occurrence, spec_spans_overlap};

verus! {

/// The mathematical value of an [`Exclusion`].
pub struct ExclusionModel {
    pub start: int,
    pub end: int,
}

/// An excluded absolute span, half-open `[starts_at, ends_at)`.
#[derive(Clone, Copy, Debug, PartialEq, Eq, Structural)]
pub struct Exclusion {
    pub starts_at_unix_timestamp: i64,
    pub ends_at_unix_timestamp: i64,
}

impl View for Exclusion {
    type V = ExclusionModel;

    open spec fn view(&self) -> ExclusionModel {
        ExclusionModel {
            start: self.starts_at_unix_timestamp as int,
            end: self.ends_at_unix_timestamp as int,
        }
    }
}

/// Whether this exclusion suppresses an occurrence with the given span.
pub open spec fn spec_exclusion_overlaps(e: ExclusionModel, start: int, end: int) -> bool {
    spec_spans_overlap(e.start, e.end, start, end)
}

impl Exclusion {
    /// Builds an exclusion from its absolute span.
    pub fn new(starts_at_unix_timestamp: i64, ends_at_unix_timestamp: i64) -> (r: Exclusion)
        ensures
            r@ == (ExclusionModel {
                start: starts_at_unix_timestamp as int,
                end: ends_at_unix_timestamp as int,
            }),
    {
        Exclusion { starts_at_unix_timestamp, ends_at_unix_timestamp }
    }

    /// The absolute start instant.
    pub fn get_starts_at_unix_timestamp(&self) -> (r: i64)
        ensures
            r as int == self@.start,
    {
        self.starts_at_unix_timestamp
    }

    /// The absolute end instant.
    pub fn get_ends_at_unix_timestamp(&self) -> (r: i64)
        ensures
            r as int == self@.end,
    {
        self.ends_at_unix_timestamp
    }

    /// Whether this exclusion half-open-overlaps the occurrence.
    pub fn overlaps_with(&self, occurrence: &Occurrence) -> (r: bool)
        ensures
            r == spec_exclusion_overlaps(self@, occurrence@.start, occurrence@.end),
    {
        self.starts_at_unix_timestamp < occurrence.ends_at_unix_timestamp
            && occurrence.starts_at_unix_timestamp < self.ends_at_unix_timestamp
    }
}

} // verus!
