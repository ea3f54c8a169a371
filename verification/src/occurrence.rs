//! A concrete realized event instance: absolute start and end instants and
//! an optional label. Immutable once returned.

use vstd::prelude::*;

verus! {

/// The mathematical value of an [`Occurrence`].
pub struct OccurrenceModel {
    pub start: int,
    pub end: int,
    pub label: Option<Seq<char>>,
}

/// Whether two half-open spans `[a_start, a_end)` and `[b_start, b_end)`
/// intersect.
pub open spec fn spec_spans_overlap(a_start: int, a_end: int, b_start: int, b_end: int) -> bool {
    a_start < b_end && b_start < a_end
}

/// The abstract value of an optional label.
pub open spec fn spec_label_view(label: Option<String>) -> Option<Seq<char>> {
    match label {
        Some(s) => Some(s@),
        None => None,
    }
}

/// One concrete occurrence of a recurrence rule: the half-open absolute
/// span `[starts_at, ends_at)` and the rule's optional label.
#[derive(Debug, PartialEq, Eq)]
pub struct Occurrence {
    pub starts_at_unix_timestamp: i64,
    pub ends_at_unix_timestamp: i64,
    pub label: Option<String>,
}

impl View for Occurrence {
    type V = OccurrenceModel;

    open spec fn view(&self) -> OccurrenceModel {
        OccurrenceModel {
            start: self.starts_at_unix_timestamp as int,
            end: self.ends_at_unix_timestamp as int,
            label: spec_label_view(self.label),
        }
    }
}

impl Occurrence {
    /// Builds an occurrence from its absolute span and optional label.
    pub fn new(
        starts_at_unix_timestamp: i64,
        ends_at_unix_timestamp: i64,
        label: Option<String>,
    ) -> (r: Occurrence)
        ensures
            r@ == (OccurrenceModel {
                start: starts_at_unix_timestamp as int,
                end: ends_at_unix_timestamp as int,
                label: spec_label_view(label),
            }),
    {
        Occurrence { starts_at_unix_timestamp, ends_at_unix_timestamp, label }
    }

    /// The absolute start instant, as a unix timestamp.
    pub fn get_starts_at_unix_timestamp(&self) -> (r: i64)
        ensures
            r as int == self@.start,
    {
        self.starts_at_unix_timestamp
    }

    /// The absolute end instant, as a unix timestamp.
    pub fn get_ends_at_unix_timestamp(&self) -> (r: i64)
        ensures
            r as int == self@.end,
    {
        self.ends_at_unix_timestamp
    }

    /// The rule label this occurrence carries, if any.
    pub fn label(&self) -> (r: Option<String>)
        ensures
            spec_label_view(r) == self@.label,
    {
        match &self.label {
            Some(s) => Some(s.clone()),
            None => None,
        }
    }

    /// Relies on `chrono::DateTime::to_rfc3339` to render the two instants
    /// for a human reader.
    #[verifier::external_body]
    pub fn inspect(&self) -> String {
        let starts_at = chrono::DateTime::from_timestamp(self.starts_at_unix_timestamp, 0)
            .map(|d| d.to_rfc3339());
        let ends_at = chrono::DateTime::from_timestamp(self.ends_at_unix_timestamp, 0)
            .map(|d| d.to_rfc3339());
        format!(
            "<Occurrence starts_at={:?} ends_at={:?} label={:?}>",
            starts_at.unwrap_or_else(|| "out of range".into()),
            ends_at.unwrap_or_else(|| "out of range".into()),
            self.label.clone().unwrap_or("nil".into()),
        )
    }
}

} // verus!
