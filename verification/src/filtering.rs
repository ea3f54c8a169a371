//! Order-preserving selection of occurrences by a predicate: the filter
//! passes that drop excluded occurrences and answer the windowed queries.

use vstd::prelude::*;
use crate::occurrence::Occurrence;
use crate::sorting::{occurrence_start, sorted_by_start};

verus! {

/// The occurrences of `s` satisfying `pred`, in order.
pub open spec fn spec_keep(s: Seq<Occurrence>, pred: spec_fn(Occurrence) -> bool) -> Seq<
    Occurrence,
>
    decreases s.len(),
{
    if s.len() == 0 {
        Seq::empty()
    } else {
        let rest = spec_keep(s.drop_last(), pred);
        if pred(s.last()) {
            rest.push(s.last())
        } else {
            rest
        }
    }
}

/// Every kept occurrence satisfies the predicate.
pub proof fn lemma_keep_all_hold(s: Seq<Occurrence>, pred: spec_fn(Occurrence) -> bool)
    ensures
        forall|j: int| 0 <= j < spec_keep(s, pred).len() ==> pred(#[trigger] spec_keep(s, pred)[j]),
    decreases s.len(),
{
    if s.len() > 0 {
        lemma_keep_all_hold(s.drop_last(), pred);
        let rest = spec_keep(s.drop_last(), pred);
        let d = spec_keep(s, pred);
        assert forall|j: int| 0 <= j < d.len() implies pred(#[trigger] d[j]) by {
            if j < rest.len() {
                assert(d[j] == rest[j]);
            }
        }
    }
}

/// Every kept occurrence is an occurrence of the input.
pub proof fn lemma_keep_contains(s: Seq<Occurrence>, pred: spec_fn(Occurrence) -> bool)
    ensures
        forall|j: int| 0 <= j < spec_keep(s, pred).len() ==> s.contains(
            #[trigger] spec_keep(s, pred)[j],
        ),
    decreases s.len(),
{
    if s.len() > 0 {
        lemma_keep_contains(s.drop_last(), pred);
        let rest = spec_keep(s.drop_last(), pred);
        let d = spec_keep(s, pred);
        assert forall|j: int| 0 <= j < d.len() implies s.contains(#[trigger] d[j]) by {
            if j < rest.len() {
                assert(d[j] == rest[j]);
                assert(s.drop_last().contains(rest[j]));
                let i = choose|i: int| 0 <= i < s.drop_last().len() && s.drop_last()[i] == rest[j];
                assert(s[i] == rest[j]);
            } else {
                assert(d[j] == s.last());
                assert(s[s.len() - 1] == s.last());
            }
        }
    }
}

/// An occurrence of the input that satisfies the predicate is kept.
pub proof fn lemma_keep_retains(s: Seq<Occurrence>, pred: spec_fn(Occurrence) -> bool, i: int)
    requires
        0 <= i < s.len(),
        pred(s[i]),
    ensures
        spec_keep(s, pred).contains(s[i]),
    decreases s.len(),
{
    let rest = spec_keep(s.drop_last(), pred);
    let d = spec_keep(s, pred);
    if i == s.len() - 1 {
        assert(pred(s.last()));
        assert(d == rest.push(s.last()));
        assert(d[d.len() - 1] == s[i]);
    } else {
        assert(s.drop_last()[i] == s[i]);
        lemma_keep_retains(s.drop_last(), pred, i);
        let j = choose|j: int| 0 <= j < rest.len() && rest[j] == s[i];
        assert(d[j] == s[i]);
    }
}

/// Keeping a subset of a list sorted by start leaves it sorted.
pub proof fn lemma_keep_sorted(s: Seq<Occurrence>, pred: spec_fn(Occurrence) -> bool)
    requires
        sorted_by_start(s),
    ensures
        sorted_by_start(spec_keep(s, pred)),
    decreases s.len(),
{
    if s.len() > 0 {
        lemma_keep_sorted(s.drop_last(), pred);
        lemma_keep_contains(s.drop_last(), pred);
        let rest = spec_keep(s.drop_last(), pred);
        let d = spec_keep(s, pred);
        assert forall|i: int, j: int| 0 <= i < j < d.len() implies occurrence_start(d[i])
            <= occurrence_start(d[j]) by {
            if j < rest.len() {
                assert(d[i] == rest[i]);
                assert(d[j] == rest[j]);
            } else {
                assert(d[i] == rest[i]);
                assert(s.drop_last().contains(rest[i]));
                let idx = choose|idx: int|
                    0 <= idx < s.drop_last().len() && s.drop_last()[idx] == rest[i];
                assert(s[idx] == rest[i]);
                assert(occurrence_start(s[idx]) <= occurrence_start(s[s.len() - 1]));
            }
        }
    }
}

} // verus!
