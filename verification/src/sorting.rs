//! The final ordering pass: occurrences sorted ascending by start
//! timestamp. The sort is stable and fully specified, so two expansions of
//! the same schedule state produce identical lists.

use vstd::prelude::*;
use crate::occurrence::Occurrence;

verus! {

/// The sort key: an occurrence's start instant.
pub open spec fn occurrence_start(o: Occurrence) -> int {
    o.starts_at_unix_timestamp as int
}

/// Whether the list is sorted ascending by start instant.
pub open spec fn sorted_by_start(s: Seq<Occurrence>) -> bool {
    forall|i: int, j: int|
        0 <= i < j < s.len() ==> occurrence_start(s[i]) <= occurrence_start(s[j])
}

/// Where a stable sort by start instant places an element with key `key`
/// arriving after every element of `s`: after all elements with key at most
/// `key`.
pub open spec fn spec_insert_pos_by_start(s: Seq<Occurrence>, key: int) -> int
    decreases s.len(),
{
    if s.len() == 0 {
        0
    } else if occurrence_start(s[0]) <= key {
        1 + spec_insert_pos_by_start(s.drop_first(), key)
    } else {
        0
    }
}

/// `s` with `x` inserted at its stable sort position.
pub open spec fn spec_insert_by_start(s: Seq<Occurrence>, x: Occurrence) -> Seq<Occurrence> {
    s.insert(spec_insert_pos_by_start(s, occurrence_start(x)), x)
}

/// The stable sort by start instant: each element inserted in arrival
/// order.
pub open spec fn spec_sort_by_start(s: Seq<Occurrence>) -> Seq<Occurrence>
    decreases s.len(),
{
    if s.len() == 0 {
        Seq::empty()
    } else {
        spec_insert_by_start(spec_sort_by_start(s.drop_last()), s.last())
    }
}

/// The stable insert position lies within the list, everything before it
/// has key at most `key`, and the element at it (if any) has a larger key.
pub proof fn lemma_insert_pos_by_start_bounds(s: Seq<Occurrence>, key: int)
    ensures
        0 <= spec_insert_pos_by_start(s, key) <= s.len(),
        forall|j: int| 0 <= j < spec_insert_pos_by_start(s, key) ==> occurrence_start(s[j]) <= key,
        spec_insert_pos_by_start(s, key) < s.len()
            ==> occurrence_start(s[spec_insert_pos_by_start(s, key)]) > key,
    decreases s.len(),
{
    if s.len() == 0 {
    } else if occurrence_start(s[0]) <= key {
        lemma_insert_pos_by_start_bounds(s.drop_first(), key);
        let pos = spec_insert_pos_by_start(s, key);
        assert forall|j: int| 0 <= j < pos implies occurrence_start(s[j]) <= key by {
            if j > 0 {
                assert(s.drop_first()[j - 1] == s[j]);
            }
        }
        if pos < s.len() {
            assert(s.drop_first()[pos - 1] == s[pos]);
        }
    }
}

/// Stable insertion preserves sortedness by start instant.
pub proof fn lemma_insert_by_start_sorted(s: Seq<Occurrence>, x: Occurrence)
    requires
        sorted_by_start(s),
    ensures
        sorted_by_start(spec_insert_by_start(s, x)),
{
    let key = occurrence_start(x);
    let pos = spec_insert_pos_by_start(s, key);
    lemma_insert_pos_by_start_bounds(s, key);
    let t = s.insert(pos, x);
    s.insert_ensures(pos, x);
    assert forall|i: int, j: int| 0 <= i < j < t.len() implies occurrence_start(t[i])
        <= occurrence_start(t[j]) by {
        if i < pos && j == pos {
            assert(t[i] == s[i]);
        } else if i == pos && j > pos {
            assert(t[j] == s[j - 1]);
        } else if i < pos && j > pos {
            assert(t[i] == s[i]);
            assert(t[j] == s[j - 1]);
        } else if i < pos && j < pos {
            assert(t[i] == s[i]);
            assert(t[j] == s[j]);
        } else if i > pos && j > pos {
            assert(t[i] == s[i - 1]);
            assert(t[j] == s[j - 1]);
        }
    }
}

/// The stable sort yields a list sorted ascending by start instant.
pub proof fn lemma_sort_by_start_sorted(s: Seq<Occurrence>)
    ensures
        sorted_by_start(spec_sort_by_start(s)),
    decreases s.len(),
{
    if s.len() > 0 {
        lemma_sort_by_start_sorted(s.drop_last());
        lemma_insert_by_start_sorted(spec_sort_by_start(s.drop_last()), s.last());
    }
}

/// The stable sort is a permutation: it keeps exactly the elements of its
/// input.
pub proof fn lemma_sort_by_start_multiset(s: Seq<Occurrence>)
    ensures
        spec_sort_by_start(s).to_multiset() == s.to_multiset(),
    decreases s.len(),
{
    broadcast use vstd::seq_lib::group_to_multiset_ensures;

    if s.len() > 0 {
        lemma_sort_by_start_multiset(s.drop_last());
        let sorted_prefix = spec_sort_by_start(s.drop_last());
        let key = occurrence_start(s.last());
        lemma_insert_pos_by_start_bounds(sorted_prefix, key);
        vstd::seq_lib::to_multiset_insert(
            sorted_prefix,
            spec_insert_pos_by_start(sorted_prefix, key),
            s.last(),
        );
        assert(s =~= s.drop_last().push(s.last()));
    }
}

/// An element is in the sorted list exactly when it is in the input.
pub proof fn lemma_sort_by_start_contains(s: Seq<Occurrence>, x: Occurrence)
    ensures
        spec_sort_by_start(s).contains(x) <==> s.contains(x),
{
    broadcast use vstd::seq_lib::group_to_multiset_ensures;

    lemma_sort_by_start_multiset(s);
    vstd::seq_lib::to_multiset_contains(s, x);
    vstd::seq_lib::to_multiset_contains(spec_sort_by_start(s), x);
}

/// Inserts `x` into a list sorted by start instant, at its stable
/// position.
fn insert_sorted_by_start(v: Vec<Occurrence>, x: Occurrence) -> (r: Vec<Occurrence>)
    ensures
        r@ == spec_insert_by_start(v@, x),
{
    let ghost key = occurrence_start(x);
    let ghost v0 = v@;
    let key_exec = x.starts_at_unix_timestamp;
    let mut out = v;
    let mut p: usize = 0;
    loop
        invariant
            out@ == v0,
            key == occurrence_start(x),
            key_exec == x.starts_at_unix_timestamp,
            p <= v0.len(),
            forall|j: int| 0 <= j < p ==> occurrence_start(v0[j]) <= key,
        ensures
            out@ == v0,
            p <= v0.len(),
            forall|j: int| 0 <= j < p ==> occurrence_start(v0[j]) <= key,
            p == v0.len() || occurrence_start(v0[p as int]) > key,
        decreases v0.len() - p,
    {
        if p >= out.len() {
            break;
        }
        if out[p].starts_at_unix_timestamp > key_exec {
            assert(occurrence_start(v0[p as int]) > key);
            break;
        }
        assert(occurrence_start(v0[p as int]) <= key);
        p = p + 1;
    }
    proof {
        lemma_insert_pos_by_start_bounds(v0, key);
        let ip = spec_insert_pos_by_start(v0, key);
        if ip < p {
            assert(occurrence_start(v0[ip]) <= key);
            assert(false);
        }
        if ip > p {
            assert(p < v0.len() && occurrence_start(v0[p as int]) > key);
            assert(occurrence_start(v0[p as int]) <= key);
            assert(false);
        }
    }
    out.insert(p, x);
    out
}

/// Sorts occurrences ascending by start timestamp, stably.
pub fn sort_occurrences_by_start(v: Vec<Occurrence>) -> (r: Vec<Occurrence>)
    ensures
        r@ == spec_sort_by_start(v@),
        sorted_by_start(r@),
{
    let ghost orig = v@;
    let mut input = v;
    let mut out: Vec<Occurrence> = Vec::new();
    proof {
        assert(orig.take(0) =~= Seq::<Occurrence>::empty());
        assert(orig.skip(0) =~= orig);
    }
    loop
        invariant
            input@.len() <= orig.len(),
            input@ == orig.skip(orig.len() - input@.len()),
            out@ == spec_sort_by_start(orig.take(orig.len() - input@.len())),
        ensures
            out@ == spec_sort_by_start(orig),
        decreases input@.len(),
    {
        if input.len() == 0 {
            proof {
                assert(orig.take(orig.len() as int) =~= orig);
            }
            break;
        }
        let ghost d = orig.len() - input@.len();
        let x = input.remove(0);
        proof {
            assert(orig.skip(d as int)[0] == orig[d as int]);
            assert(x == orig[d as int]);
            assert(input@ =~= orig.skip(d + 1));
        }
        out = insert_sorted_by_start(out, x);
        proof {
            let next = orig.take(d + 1);
            assert(next.drop_last() =~= orig.take(d as int));
            assert(next.last() == orig[d as int]);
        }
    }
    proof {
        lemma_sort_by_start_sorted(orig);
    }
    out
}

} // verus!
