//! The shared expansion driver: walks a rule's cursor across a generation
//! window, collects the candidate instants the rule accepts, keeps every Nth
//! of them, and turns the kept instants into occurrences.
//!
//! The whole pipeline is mirrored by spec functions of the rule, the zone
//! name and the window, so what a rule generates is a proved function of the
//! schedule's state.

use vstd::prelude::*;
use crate::clock::{MAX_CURSOR_STEP, set_datetime_cursor_safely, spec_set_datetime_cursor_safely};
use crate::occurrence::Occurrence;
use crate::recurrence::{
    RecurringSeries, cursor_in_range, lemma_advance_progress, spec_advance, spec_next_candidate,
    spec_rule_time_of_day, spec_rule_wf, spec_series_options, spec_window_fuel,
};
use crate::series_options::INTERVAL_LIMIT;
use crate::zone::{BOOKEND_TS_LIMIT, Zone, seq_ts};

verus! {

/// Magnitude bound on a generation window bookend: twice the schedule
/// bookend bound, covering the widening that the overlap query performs.
pub const WINDOW_TS_LIMIT: i64 = 2_000_000_000_000;

/// Whether a window bookend is within the supported range.
pub open spec fn window_in_range(ts: int) -> bool {
    -(WINDOW_TS_LIMIT as int) <= ts <= WINDOW_TS_LIMIT as int
}

/// The start of a rule's generation window: its private start bookend when
/// it has one, else the window handed down by the schedule.
pub open spec fn spec_effective_start(r: RecurringSeries, window_start: int) -> int {
    match spec_series_options(r).starts_at_unix_timestamp {
        Some(t) => t as int,
        None => window_start,
    }
}

/// The end of a rule's generation window: its private end bookend when it
/// has one, else the window handed down by the schedule.
pub open spec fn spec_effective_end(r: RecurringSeries, window_end: int) -> int {
    match spec_series_options(r).ends_at_unix_timestamp {
        Some(t) => t as int,
        None => window_end,
    }
}

/// Where a rule's cursor starts: the wall time pinned onto the window
/// start, kept when it stays within one guarded step of it.
pub open spec fn spec_initial_cursor(r: RecurringSeries, zone: Seq<char>, start: int) -> int {
    let raw = spec_set_datetime_cursor_safely(zone, start, spec_rule_time_of_day(r));
    if start - MAX_CURSOR_STEP <= raw <= start + MAX_CURSOR_STEP {
        raw
    } else {
        start
    }
}

/// The candidate instants a rule emits while its cursor walks the window
/// `[start, end)`: at each cursor position, the rule's candidate if it
/// falls strictly between the bookends, then the cursor's next position.
/// A candidate equal to a bookend is not emitted.
pub open spec fn spec_candidates(
    r: RecurringSeries,
    zone: Seq<char>,
    start: int,
    end: int,
    cursor: int,
) -> Seq<int>
    decreases spec_window_fuel(cursor, end),
        via spec_candidates_decreases
{
    if cursor >= end {
        Seq::empty()
    } else {
        let cand = spec_next_candidate(r, zone, cursor);
        let tail = spec_candidates(r, zone, start, end, spec_advance(r, zone, cursor));
        if cand is Some && start < cand->0 < end {
            seq![cand->0] + tail
        } else {
            tail
        }
    }
}

#[via_fn]
proof fn spec_candidates_decreases(
    r: RecurringSeries,
    zone: Seq<char>,
    start: int,
    end: int,
    cursor: int,
) {
    lemma_advance_progress(r, zone, cursor);
}

/// Every Nth element of `s` from index `i` on: `s[i]`, `s[i+k]`, and so
/// on.
pub open spec fn spec_decimate_from(s: Seq<int>, k: int, i: int) -> Seq<int>
    decreases spec_window_fuel(i, s.len() as int),
{
    if k < 1 || i < 0 || i >= s.len() {
        Seq::empty()
    } else {
        seq![s[i]] + spec_decimate_from(s, k, i + k)
    }
}

/// Every Nth element of `s`, starting with the first.
pub open spec fn spec_decimate(s: Seq<int>, k: int) -> Seq<int> {
    spec_decimate_from(s, k, 0)
}

/// The `j`th element a decimation starting at index `i` keeps is the input
/// element at index `i + j * k`.
pub proof fn lemma_decimate_index(s: Seq<int>, k: int, i: int, j: int)
    requires
        k >= 1,
        0 <= i,
        0 <= j < spec_decimate_from(s, k, i).len(),
    ensures
        i + j * k < s.len(),
        spec_decimate_from(s, k, i)[j] == s[i + j * k],
    decreases j,
{
    let d = spec_decimate_from(s, k, i);
    let tail = spec_decimate_from(s, k, i + k);
    assert(i < s.len());
    if j == 0 {
        assert(j * k == 0) by (nonlinear_arith)
            requires
                j == 0,
        ;
        assert(d[0] == s[i]);
    } else {
        assert(d[j] == tail[j - 1]);
        lemma_decimate_index(s, k, i + k, j - 1);
        assert(i + k + (j - 1) * k == i + j * k) by (nonlinear_arith);
    }
}

/// Interval decimation keeps the right number of elements: as many as
/// there are indices `i, i+k, i+2k, …` below the input's length. Stated as
/// a product bracket: the count is the least `n` with `n * k` covering the
/// remaining input.
pub proof fn lemma_decimate_count(s: Seq<int>, k: int, i: int)
    requires
        k >= 1,
        0 <= i,
    ensures
        i >= s.len() ==> spec_decimate_from(s, k, i).len() == 0,
        i < s.len() ==> (spec_decimate_from(s, k, i).len() - 1) * k < s.len() - i,
        i < s.len() ==> s.len() - i <= spec_decimate_from(s, k, i).len() * k,
    decreases spec_window_fuel(i, s.len() as int),
{
    if i < s.len() {
        lemma_decimate_count(s, k, i + k);
        let n = spec_decimate_from(s, k, i).len() as int;
        let m = spec_decimate_from(s, k, i + k).len() as int;
        assert(n == m + 1);
        if i + k >= s.len() {
            assert(m == 0);
            assert((n - 1) * k == 0) by (nonlinear_arith)
                requires
                    n == 1,
            ;
            assert(n * k == k) by (nonlinear_arith)
                requires
                    n == 1,
            ;
        } else {
            assert((m - 1) * k < s.len() - (i + k));
            assert(s.len() - (i + k) <= m * k);
            assert((n - 1) * k == m * k) by (nonlinear_arith)
                requires
                    n == m + 1,
            ;
            assert(n * k == m * k + k) by (nonlinear_arith)
                requires
                    n == m + 1,
            ;
            assert((m - 1) * k + k == m * k) by (nonlinear_arith);
        }
    }
}

/// The occurrences a rule generates over a window: the decimated candidate
/// instants, each paired with its end (start plus the rule's duration) and
/// the rule's label.
pub open spec fn spec_rule_occurrences(
    r: RecurringSeries,
    zone: Seq<char>,
    window_start: int,
    window_end: int,
) -> Seq<Occurrence> {
    let o = spec_series_options(r);
    let start = spec_effective_start(r, window_start);
    let end = spec_effective_end(r, window_end);
    let c0 = spec_initial_cursor(r, zone, start);
    let kept = spec_decimate(spec_candidates(r, zone, start, end, c0), o.interval as int);
    Seq::new(
        kept.len(),
        |i: int|
            Occurrence {
                starts_at_unix_timestamp: kept[i] as i64,
                ends_at_unix_timestamp: (kept[i] + o.duration_in_seconds) as i64,
                label: o.label,
            },
    )
}

/// Interval decimation at the rule level: with interval `N`, the `j`th
/// occurrence a rule generates starts at the `j * N`th instant of its full
/// chronological candidate list (indices `0, N, 2N, …`).
pub proof fn lemma_rule_occurrences_decimation(
    r: RecurringSeries,
    zone: Seq<char>,
    window_start: int,
    window_end: int,
    j: int,
)
    requires
        spec_series_options(r).interval >= 1,
        0 <= j < spec_rule_occurrences(r, zone, window_start, window_end).len(),
    ensures
        ({
            let start = spec_effective_start(r, window_start);
            let end = spec_effective_end(r, window_end);
            let cands = spec_candidates(r, zone, start, end, spec_initial_cursor(r, zone, start));
            let k = spec_series_options(r).interval as int;
            j * k < cands.len() && spec_rule_occurrences(r, zone, window_start, window_end)[j]
                .starts_at_unix_timestamp == cands[j * k] as i64
        }),
{
    let start = spec_effective_start(r, window_start);
    let end = spec_effective_end(r, window_end);
    let cands = spec_candidates(r, zone, start, end, spec_initial_cursor(r, zone, start));
    let k = spec_series_options(r).interval as int;
    lemma_decimate_index(cands, k, 0, j);
}

/// A copy of an optional label, equal to the original.
fn clone_label(l: &Option<String>) -> (r: Option<String>)
    ensures
        r == *l,
{
    match l {
        Some(s) => Some(s.clone()),
        None => None,
    }
}

/// Keeps every Nth element of the candidate list, the first included.
fn decimate_candidates(cands: Vec<i64>, interval: i64) -> (r: Vec<i64>)
    requires
        1 <= interval <= INTERVAL_LIMIT,
    ensures
        seq_ts(r@) == spec_decimate(seq_ts(cands@), interval as int),
        forall|j: int|
            0 <= j < r@.len() ==> cands@.contains(#[trigger] r@[j]),
{
    let ghost s = seq_ts(cands@);
    let ghost k = interval as int;
    let len = cands.len();
    let kk: usize = interval as usize;
    let mut out: Vec<i64> = Vec::new();
    let mut idx: usize = 0;
    proof {
        assert(s.len() == cands@.len());
    }
    loop
        invariant
            s == seq_ts(cands@),
            s.len() == cands@.len(),
            k == interval as int,
            1 <= k <= INTERVAL_LIMIT as int,
            kk as int == k,
            len == cands@.len(),
            idx <= len,
            seq_ts(out@) + spec_decimate_from(s, k, idx as int) == spec_decimate_from(
                s,
                k,
                0,
            ),
            forall|j: int| 0 <= j < out@.len() ==> cands@.contains(#[trigger] out@[j]),
        ensures
            seq_ts(out@) == spec_decimate_from(s, k, 0),
            forall|j: int| 0 <= j < out@.len() ==> cands@.contains(#[trigger] out@[j]),
        decreases len - idx,
    {
        if idx >= len {
            break;
        }
        let ghost pre = seq_ts(out@);
        let ghost i0 = idx as int;
        let x = cands[idx];
        out.push(x);
        proof {
            assert(s[i0] == x as int);
            assert(cands@.contains(x));
            assert(seq_ts(out@) =~= pre.push(x as int));
            assert(pre.push(x as int) =~= pre + seq![x as int]);
            assert(spec_decimate_from(s, k, i0) == seq![s[i0]] + spec_decimate_from(s, k, i0 + k));
            assert((pre + seq![x as int]) + spec_decimate_from(s, k, i0 + k) =~= pre + (seq![
                x as int,
            ] + spec_decimate_from(s, k, i0 + k)));
        }
        if len - idx <= kk {
            idx = len;
            proof {
                assert(spec_decimate_from(s, k, i0 + k) =~= Seq::<int>::empty());
                assert(spec_decimate_from(s, k, idx as int) =~= Seq::<int>::empty());
            }
        } else {
            idx = idx + kk;
        }
    }
    out
}

impl RecurringSeries {
    /// Expands this rule over the window `[starts_at, ends_at)` handed down
    /// by the schedule: the rule's private bookends, when present, override
    /// it. Returns the decimated occurrences in chronological order of
    /// generation.
    pub fn generate_occurrences(&self, zone: &Zone, starts_at: i64, ends_at: i64) -> (r: Vec<
        Occurrence,
    >)
        requires
            spec_rule_wf(*self),
            window_in_range(starts_at as int),
            window_in_range(ends_at as int),
        ensures
            r@ == spec_rule_occurrences(*self, zone.id(), starts_at as int, ends_at as int),
    {
        let ghost zid = zone.id();
        let opts = self.get_series_options();
        let start = match opts.starts_at_unix_timestamp {
            Some(t) => t,
            None => starts_at,
        };
        let end = match opts.ends_at_unix_timestamp {
            Some(t) => t,
            None => ends_at,
        };
        let t = opts.time_of_day;
        let ghost start_i = start as int;
        let ghost end_i = end as int;
        proof {
            assert(start_i == spec_effective_start(*self, starts_at as int));
            assert(end_i == spec_effective_end(*self, ends_at as int));
        }

        let raw = set_datetime_cursor_safely(zone, start, &t);
        let mut cursor = if start - MAX_CURSOR_STEP <= raw && raw <= start + MAX_CURSOR_STEP {
            raw
        } else {
            start
        };
        let ghost c0 = cursor as int;
        proof {
            assert(c0 == spec_initial_cursor(*self, zid, start_i));
        }

        let mut cands: Vec<i64> = Vec::new();
        loop
            invariant
                zid == zone.id(),
                spec_rule_wf(*self),
                start_i == start as int,
                end_i == end as int,
                -(WINDOW_TS_LIMIT as int) <= start_i <= WINDOW_TS_LIMIT as int,
                -(WINDOW_TS_LIMIT as int) <= end_i <= WINDOW_TS_LIMIT as int,
                start_i - MAX_CURSOR_STEP as int <= cursor as int,
                cursor_in_range(cursor as int),
                seq_ts(cands@) + spec_candidates(*self, zid, start_i, end_i, cursor as int)
                    == spec_candidates(*self, zid, start_i, end_i, c0),
                forall|j: int| 0 <= j < cands@.len() ==> (start as int) < ((#[trigger] cands@[j]) as int)
                    && ((#[trigger] cands@[j]) as int) < (end as int),
            ensures
                seq_ts(cands@) == spec_candidates(*self, zid, start_i, end_i, c0),
                forall|j: int| 0 <= j < cands@.len() ==> (start as int) < ((#[trigger] cands@[j]) as int)
                    && ((#[trigger] cands@[j]) as int) < (end as int),
            decreases spec_window_fuel(cursor as int, end_i),
        {
            if cursor >= end {
                proof {
                    assert(spec_candidates(*self, zid, start_i, end_i, cursor as int)
                        =~= Seq::<int>::empty());
                    assert(seq_ts(cands@) + Seq::<int>::empty() =~= seq_ts(cands@));
                }
                break;
            }
            let ghost cur0 = cursor as int;
            let ghost pre = seq_ts(cands@);
            let cand = self.next_occurrence_candidate(zone, cursor);
            match cand {
                Some(c) => {
                    if c > start && c < end {
                        cands.push(c);
                        proof {
                            assert(seq_ts(cands@) =~= pre.push(c as int));
                            assert(pre.push(c as int) =~= pre + seq![c as int]);
                        }
                    }
                },
                None => {},
            }
            let next = self.advance_datetime_cursor(zone, cursor);
            cursor = next;
            proof {
                let scand = spec_next_candidate(*self, zid, cur0);
                let tail = spec_candidates(*self, zid, start_i, end_i, cursor as int);
                assert(spec_candidates(*self, zid, start_i, end_i, cur0) == if scand is Some
                    && start_i < scand->0 < end_i {
                    seq![scand->0] + tail
                } else {
                    tail
                });
                if scand is Some && start_i < scand->0 < end_i {
                    assert((pre + seq![scand->0]) + tail =~= pre + (seq![scand->0] + tail));
                }
            }
        }

        let interval = opts.interval;
        let duration = opts.duration_in_seconds;
        let ghost candsv = cands@;
        let kept = decimate_candidates(cands, interval);
        let ghost kept_spec = spec_decimate(
            spec_candidates(*self, zid, start_i, end_i, c0),
            interval as int,
        );
        proof {
            assert(seq_ts(kept@) == kept_spec);
            assert forall|j: int| 0 <= j < kept@.len() implies -(WINDOW_TS_LIMIT as int)
                <= (#[trigger] kept@[j]) as int <= WINDOW_TS_LIMIT as int by {
                assert(candsv.contains(kept@[j]));
            }
        }

        let mut occurrences: Vec<Occurrence> = Vec::new();
        let mut i: usize = 0;
        let ghost target = spec_rule_occurrences(*self, zid, starts_at as int, ends_at as int);
        proof {
            assert(target.len() == kept_spec.len());
            assert forall|j: int| 0 <= j < kept_spec.len() implies #[trigger] target[j]
                == (Occurrence {
                starts_at_unix_timestamp: kept_spec[j] as i64,
                ends_at_unix_timestamp: (kept_spec[j]
                    + spec_series_options(*self).duration_in_seconds as int) as i64,
                label: spec_series_options(*self).label,
            }) by {
            }
        }
        loop
            invariant
                i <= kept@.len(),
                seq_ts(kept@) == kept_spec,
                duration == spec_series_options(*self).duration_in_seconds,
                0 <= duration <= BOOKEND_TS_LIMIT,
                *opts == spec_series_options(*self),
                kept@.len() == kept_spec.len(),
                forall|j: int| 0 <= j < kept@.len() ==> -(WINDOW_TS_LIMIT as int)
                    <= (#[trigger] kept@[j]) as int <= WINDOW_TS_LIMIT as int,
                target.len() == kept_spec.len(),
                forall|j: int| 0 <= j < kept_spec.len() ==> #[trigger] target[j] == (Occurrence {
                    starts_at_unix_timestamp: kept_spec[j] as i64,
                    ends_at_unix_timestamp: (kept_spec[j]
                        + spec_series_options(*self).duration_in_seconds as int) as i64,
                    label: spec_series_options(*self).label,
                }),
                occurrences@.len() == i,
                forall|j: int| 0 <= j < i ==> occurrences@[j] == target[j],
            ensures
                occurrences@ =~= target,
            decreases kept@.len() - i,
        {
            if i >= kept.len() {
                break;
            }
            let ts = kept[i];
            let label = clone_label(&opts.label);
            let occ = Occurrence {
                starts_at_unix_timestamp: ts,
                ends_at_unix_timestamp: ts + duration,
                label,
            };
            proof {
                assert(kept_spec[i as int] == ts as int);
                assert(occ == target[i as int]);
            }
            occurrences.push(occ);
            i = i + 1;
        }
        occurrences
    }
}

} // verus!
