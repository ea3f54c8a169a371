//! The schedule's exclusion set: a list of excluded intervals kept sorted
//! ascending by end time, answering overlap queries against occurrences.

use vstd::prelude::*;
use crate::exclusion::Exclusion;
use crate::occurrence::{Occurrence, spec_spans_overlap};

verus! {

/// The sort key: an exclusion's end instant.
pub open spec fn exclusion_end(e: Exclusion) -> int {
    e.ends_at_unix_timestamp as int
}

/// Whether the list is sorted ascending by end instant.
pub open spec fn sorted_by_end(s: Seq<Exclusion>) -> bool {
    forall|i: int, j: int| 0 <= i < j < s.len() ==> exclusion_end(s[i]) <= exclusion_end(s[j])
}

/// Where a stable sort by end instant places an element with key `key`
/// arriving after every element of `s`: after all elements with key at most
/// `key`.
pub open spec fn spec_insert_pos_by_end(s: Seq<Exclusion>, key: int) -> int
    decreases s.len(),
{
    if s.len() == 0 {
        0
    } else if exclusion_end(s[0]) <= key {
        1 + spec_insert_pos_by_end(s.drop_first(), key)
    } else {
        0
    }
}

/// `s` with `x` inserted at its stable sort position.
pub open spec fn spec_insert_by_end(s: Seq<Exclusion>, x: Exclusion) -> Seq<Exclusion> {
    s.insert(spec_insert_pos_by_end(s, exclusion_end(x)), x)
}

/// The stable sort by end instant: each element inserted in arrival order.
pub open spec fn spec_sort_by_end(s: Seq<Exclusion>) -> Seq<Exclusion>
    decreases s.len(),
{
    if s.len() == 0 {
        Seq::empty()
    } else {
        spec_insert_by_end(spec_sort_by_end(s.drop_last()), s.last())
    }
}

/// Whether any exclusion in `s` half-open-overlaps the span
/// `[start, end)`.
pub open spec fn spec_is_excluded(s: Seq<Exclusion>, start: int, end: int) -> bool {
    exists|i: int|
        0 <= i < s.len() && spec_spans_overlap(
            s[i].starts_at_unix_timestamp as int,
            s[i].ends_at_unix_timestamp as int,
            start,
            end,
        )
}

/// The stable insert position lies within the list, everything before it
/// has key at most `key`, and the element at it (if any) has a larger key.
pub proof fn lemma_insert_pos_by_end_bounds(s: Seq<Exclusion>, key: int)
    ensures
        0 <= spec_insert_pos_by_end(s, key) <= s.len(),
        forall|j: int| 0 <= j < spec_insert_pos_by_end(s, key) ==> exclusion_end(s[j]) <= key,
        spec_insert_pos_by_end(s, key) < s.len()
            ==> exclusion_end(s[spec_insert_pos_by_end(s, key)]) > key,
    decreases s.len(),
{
    if s.len() == 0 {
    } else if exclusion_end(s[0]) <= key {
        lemma_insert_pos_by_end_bounds(s.drop_first(), key);
        let pos = spec_insert_pos_by_end(s, key);
        assert forall|j: int| 0 <= j < pos implies exclusion_end(s[j]) <= key by {
            if j > 0 {
                assert(s.drop_first()[j - 1] == s[j]);
            }
        }
        if pos < s.len() {
            assert(s.drop_first()[pos - 1] == s[pos]);
        }
    }
}

/// Stable insertion preserves sortedness by end instant.
pub proof fn lemma_insert_by_end_sorted(s: Seq<Exclusion>, x: Exclusion)
    requires
        sorted_by_end(s),
    ensures
        sorted_by_end(spec_insert_by_end(s, x)),
{
    let key = exclusion_end(x);
    let pos = spec_insert_pos_by_end(s, key);
    lemma_insert_pos_by_end_bounds(s, key);
    let t = s.insert(pos, x);
    s.insert_ensures(pos, x);
    assert forall|i: int, j: int| 0 <= i < j < t.len() implies
        exclusion_end(t[i]) <= exclusion_end(t[j]) by {
        if i < pos && j == pos {
            assert(t[i] == s[i]);
        } else if i == pos && j > pos {
            assert(t[j] == s[j - 1]);
        } else if i < pos && j > pos {
            assert(t[i] == s[i]);
            assert(t[j] == s[j - 1]);
        } else if i < pos && j < pos {
            assert(t[i] == s[i]);
            assert(t[j] == s[j]);
        } else if i > pos && j > pos {
            assert(t[i] == s[i - 1]);
            assert(t[j] == s[j - 1]);
        }
    }
}

/// The stable sort yields a list sorted ascending by end instant.
pub proof fn lemma_sort_by_end_sorted(s: Seq<Exclusion>)
    ensures
        sorted_by_end(spec_sort_by_end(s)),
    decreases s.len(),
{
    if s.len() > 0 {
        lemma_sort_by_end_sorted(s.drop_last());
        lemma_insert_by_end_sorted(spec_sort_by_end(s.drop_last()), s.last());
    }
}

/// The exclusions registered with a schedule, kept sorted ascending by end
/// instant; re-sorted after every insert (a batch insert sorts once).
#[derive(Debug)]
pub struct SortedExclusions {
    exclusions: Vec<Exclusion>,
}

impl View for SortedExclusions {
    type V = Seq<Exclusion>;

    closed spec fn view(&self) -> Seq<Exclusion> {
        self.exclusions@
    }
}

/// Inserts `x` into a list sorted by end instant, at its stable position.
fn insert_sorted_by_end(v: Vec<Exclusion>, x: Exclusion) -> (r: Vec<Exclusion>)
    ensures
        r@ == spec_insert_by_end(v@, x),
{
    let ghost key = exclusion_end(x);
    let ghost v0 = v@;
    let mut out = v;
    let mut p: usize = 0;
    loop
        invariant
            out@ == v0,
            key == exclusion_end(x),
            p <= v0.len(),
            forall|j: int| 0 <= j < p ==> exclusion_end(v0[j]) <= key,
        ensures
            out@ == v0,
            p <= v0.len(),
            forall|j: int| 0 <= j < p ==> exclusion_end(v0[j]) <= key,
            p == v0.len() || exclusion_end(v0[p as int]) > key,
        decreases v0.len() - p,
    {
        if p >= out.len() {
            break;
        }
        if out[p].ends_at_unix_timestamp > x.ends_at_unix_timestamp {
            assert(exclusion_end(v0[p as int]) > key);
            break;
        }
        assert(exclusion_end(v0[p as int]) <= key);
        p = p + 1;
    }
    proof {
        lemma_insert_pos_by_end_bounds(v0, key);
        let ip = spec_insert_pos_by_end(v0, key);
        if ip < p {
            assert(exclusion_end(v0[ip]) <= key);
            assert(false);
        }
        if ip > p {
            assert(p < v0.len() && exclusion_end(v0[p as int]) > key);
            assert(exclusion_end(v0[p as int]) <= key);
            assert(false);
        }
    }
    out.insert(p, x);
    out
}

impl SortedExclusions {
    /// An empty exclusion set.
    pub fn new() -> (r: SortedExclusions)
        ensures
            r@ == Seq::<Exclusion>::empty(),
            sorted_by_end(r@),
    {
        SortedExclusions { exclusions: Vec::new() }
    }

    /// Re-sorts the list ascending by end instant. Maintained to simplify
    /// comparisons against occurrences.
    pub fn reorder_exclusions(&mut self)
        ensures
            final(self)@ == spec_sort_by_end(old(self)@),
            sorted_by_end(final(self)@),
    {
        let ghost input = self.exclusions@;
        let mut out: Vec<Exclusion> = Vec::new();
        let mut i: usize = 0;
        proof {
            assert(input.take(0) =~= Seq::<Exclusion>::empty());
        }
        while i < self.exclusions.len()
            invariant
                i <= input.len(),
                self.exclusions@ == input,
                out@ == spec_sort_by_end(input.take(i as int)),
            decreases input.len() - i,
        {
            let x = self.exclusions[i];
            out = insert_sorted_by_end(out, x);
            proof {
                let prefix = input.take(i as int);
                let next = input.take(i + 1 as int);
                assert(next.drop_last() =~= prefix);
                assert(next.last() == x);
            }
            i = i + 1;
        }
        proof {
            assert(input.take(input.len() as int) =~= input);
            lemma_sort_by_end_sorted(input);
        }
        self.exclusions = out;
    }

    /// Adds one exclusion and re-sorts.
    pub fn add_exclusion(&mut self, exclusion: Exclusion)
        ensures
            final(self)@ == spec_sort_by_end(old(self)@.push(exclusion)),
            sorted_by_end(final(self)@),
    {
        self.exclusions.push(exclusion);
        self.reorder_exclusions();
    }

    /// Adds a batch of exclusions, draining the given vector, and re-sorts
    /// once.
    pub fn add_exclusions(&mut self, exclusions: &mut Vec<Exclusion>)
        ensures
            final(self)@ == spec_sort_by_end(old(self)@ + old(exclusions)@),
            sorted_by_end(final(self)@),
            final(exclusions)@ == Seq::<Exclusion>::empty(),
    {
        self.exclusions.append(exclusions);
        self.reorder_exclusions();
    }

    /// Whether any registered exclusion half-open-overlaps the occurrence.
    pub fn is_occurrence_excluded(&self, occurrence: &Occurrence) -> (r: bool)
        ensures
            r == spec_is_excluded(self@, occurrence@.start, occurrence@.end),
    {
        let mut i: usize = 0;
        while i < self.exclusions.len()
            invariant
                i <= self.exclusions@.len(),
                forall|j: int| 0 <= j < i ==> !spec_spans_overlap(
                    self.exclusions@[j].starts_at_unix_timestamp as int,
                    self.exclusions@[j].ends_at_unix_timestamp as int,
                    occurrence@.start,
                    occurrence@.end,
                ),
            decreases self.exclusions@.len() - i,
        {
            if self.exclusions[i].overlaps_with(occurrence) {
                return true;
            }
            i = i + 1;
        }
        false
    }
}

} // verus!
