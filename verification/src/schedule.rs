//! The aggregate root: a generation window anchored to a named zone, the
//! registered recurrence rules and exclusions, and the three occurrence
//! queries.
//!
//! Each query's result is pinned by its contract to a spec function of the
//! schedule's state: expansion of every rule over the effective window, the
//! exclusion filter, the stable sort by start, and the query's own filter.

use vstd::prelude::*;
use crate::errors::ScheduleError;
use crate::exclusion::Exclusion;
use crate::expansion::{
    WINDOW_TS_LIMIT, spec_rule_occurrences, window_in_range,
};
use crate::filtering::{
    lemma_keep_all_hold, lemma_keep_contains, lemma_keep_retains, lemma_keep_sorted, spec_keep,
};
use crate::interval::{Interval, spec_interval_contains};
use crate::occurrence::{Occurrence, spec_spans_overlap};
use crate::recurrence::{
    AnnuallyByDay, Daily, Hourly, Minutely, MonthlyByDay, MonthlyByNthWeekday, RecurringSeries,
    Weekly, spec_rule_wf, spec_series_options,
};
use crate::series_options::SeriesOptions;
use crate::sorted_exclusions::{SortedExclusions, spec_is_excluded, spec_sort_by_end};
use crate::sorting::{
    lemma_sort_by_start_contains, sort_occurrences_by_start, sorted_by_start, spec_sort_by_start,
};
use crate::weekday::Weekday;
use crate::zone::{BOOKEND_TS_LIMIT, Zone, zone_name_recognized};

verus! {

/// The occurrences all rules generate over a window, in rule order.
pub open spec fn spec_schedule_raw(
    rules: Seq<RecurringSeries>,
    zone: Seq<char>,
    window_start: int,
    window_end: int,
) -> Seq<Occurrence>
    decreases rules.len(),
{
    if rules.len() == 0 {
        Seq::empty()
    } else {
        spec_schedule_raw(rules.drop_last(), zone, window_start, window_end)
            + spec_rule_occurrences(rules.last(), zone, window_start, window_end)
    }
}

/// Whether an occurrence escapes every exclusion of `ex`.
pub open spec fn spec_occurrence_kept(ex: Seq<Exclusion>, o: Occurrence) -> bool {
    !spec_is_excluded(ex, o.starts_at_unix_timestamp as int, o.ends_at_unix_timestamp as int)
}

/// The occurrences of `s` that escape every exclusion of `ex`, in order.
pub open spec fn spec_without_excluded(s: Seq<Occurrence>, ex: Seq<Exclusion>) -> Seq<Occurrence> {
    spec_keep(s, |o: Occurrence| spec_occurrence_kept(ex, o))
}

/// What expanding a schedule state over a window yields: every rule's
/// occurrences, the excluded ones dropped, sorted ascending by start.
pub open spec fn spec_generated(
    rules: Seq<RecurringSeries>,
    zone: Seq<char>,
    window_start: int,
    window_end: int,
    ex: Seq<Exclusion>,
) -> Seq<Occurrence> {
    spec_sort_by_start(
        spec_without_excluded(spec_schedule_raw(rules, zone, window_start, window_end), ex),
    )
}

/// Whether an occurrence lies wholly inside the window `[lo, hi]`.
pub open spec fn spec_occ_contained(lo: int, hi: int, o: Occurrence) -> bool {
    spec_interval_contains(
        lo,
        hi,
        o.starts_at_unix_timestamp as int,
        o.ends_at_unix_timestamp as int,
    )
}

/// Whether an occurrence intersects the window `[lo, hi)` at all.
pub open spec fn spec_occ_overlapping(lo: int, hi: int, o: Occurrence) -> bool {
    spec_spans_overlap(lo, hi, o.starts_at_unix_timestamp as int, o.ends_at_unix_timestamp as int)
}

/// The containment query's value: generation over `[lo, hi)`, then only
/// the occurrences the window wholly contains.
pub open spec fn spec_contained_query(
    rules: Seq<RecurringSeries>,
    zone: Seq<char>,
    ex: Seq<Exclusion>,
    lo: int,
    hi: int,
) -> Seq<Occurrence> {
    spec_keep(spec_generated(rules, zone, lo, hi, ex), |o: Occurrence| spec_occ_contained(lo, hi, o))
}

/// The largest occurrence duration across the rules, 0 with no rules.
pub open spec fn spec_longest_duration(rules: Seq<RecurringSeries>) -> int
    decreases rules.len(),
{
    if rules.len() == 0 {
        0
    } else {
        let rest = spec_longest_duration(rules.drop_last());
        let d = spec_series_options(rules.last()).duration_in_seconds as int;
        if d > rest {
            d
        } else {
            rest
        }
    }
}

/// The overlap query's value: generation over the window widened by the
/// largest registered duration on both sides, then only the occurrences
/// intersecting `[lo, hi)`. The widening exists because an occurrence
/// starting before `lo` with a long duration can still intersect the
/// window.
pub open spec fn spec_overlapping_query(
    rules: Seq<RecurringSeries>,
    zone: Seq<char>,
    ex: Seq<Exclusion>,
    lo: int,
    hi: int,
) -> Seq<Occurrence> {
    let d = spec_longest_duration(rules);
    spec_keep(
        spec_generated(rules, zone, lo - d, hi + d, ex),
        |o: Occurrence| spec_occ_overlapping(lo, hi, o),
    )
}

/// A window bookend handed to generation, or the schedule's own.
pub open spec fn spec_resolve_bookend(opt: Option<i64>, dflt: int) -> int {
    match opt {
        Some(t) => t as int,
        None => dflt,
    }
}

/// The exclusions a batch of timestamp pairs stands for.
pub open spec fn spec_exclusions_of(pairs: Seq<(i64, i64)>) -> Seq<Exclusion> {
    pairs.map_values(
        |p: (i64, i64)| Exclusion { starts_at_unix_timestamp: p.0, ends_at_unix_timestamp: p.1 },
    )
}

/// With every rule well formed, the largest duration lies within the
/// duration bound.
pub proof fn lemma_longest_duration_bounds(rules: Seq<RecurringSeries>)
    requires
        forall|i: int| 0 <= i < rules.len() ==> spec_rule_wf(#[trigger] rules[i]),
    ensures
        0 <= spec_longest_duration(rules) <= BOOKEND_TS_LIMIT as int,
    decreases rules.len(),
{
    if rules.len() > 0 {
        assert forall|i: int| 0 <= i < rules.drop_last().len() implies spec_rule_wf(
            #[trigger] rules.drop_last()[i],
        ) by {
            assert(rules.drop_last()[i] == rules[i]);
        }
        lemma_longest_duration_bounds(rules.drop_last());
        assert(spec_rule_wf(rules[rules.len() - 1]));
    }
}

/// An occurrence generated over the widened window that intersects the
/// requested window is returned by the overlap query: the widening exists
/// precisely so an occurrence starting before the window with a long
/// duration, still extending into it, is not missed.
pub proof fn lemma_overlap_query_keeps_overlapping(
    rules: Seq<RecurringSeries>,
    zone: Seq<char>,
    ex: Seq<Exclusion>,
    lo: int,
    hi: int,
    o: Occurrence,
)
    requires
        spec_generated(
            rules,
            zone,
            lo - spec_longest_duration(rules),
            hi + spec_longest_duration(rules),
            ex,
        ).contains(o),
        spec_occ_overlapping(lo, hi, o),
    ensures
        spec_overlapping_query(rules, zone, ex, lo, hi).contains(o),
{
    let d = spec_longest_duration(rules);
    let g = spec_generated(rules, zone, lo - d, hi + d, ex);
    let pred = |oo: Occurrence| spec_occ_overlapping(lo, hi, oo);
    let i = choose|i: int| 0 <= i < g.len() && g[i] == o;
    lemma_keep_retains(g, pred, i);
}

/// Two expansions of one unmutated schedule state return identical lists:
/// every query's result is pinned by its contract to the same function of
/// the rules, the zone, the window and the exclusions, so repeating a query
/// cannot change what comes back.
pub proof fn lemma_occurrences_deterministic(
    rules: Seq<RecurringSeries>,
    zone: Seq<char>,
    window_start: int,
    window_end: int,
    ex: Seq<Exclusion>,
    r1: Seq<Occurrence>,
    r2: Seq<Occurrence>,
)
    requires
        r1 == spec_generated(rules, zone, window_start, window_end, ex),
        r2 == spec_generated(rules, zone, window_start, window_end, ex),
    ensures
        r1 == r2,
{
}

/// The aggregate root: explicit bookends, a named zone, the registered
/// rules and the exclusion set. Rules and exclusions accrete monotonically;
/// queries never mutate it.
#[derive(Debug)]
pub struct Schedule {
    pub starts_at_unix_timestamp: i64,
    pub ends_at_unix_timestamp: i64,
    pub zone: Zone,
    pub recurring_series: Vec<RecurringSeries>,
    pub sorted_exclusions: SortedExclusions,
}

impl Schedule {
    /// The invariant a schedule maintains: bookends within the supported
    /// range and every registered rule well formed.
    pub open spec fn wf(&self) -> bool {
        &&& -(BOOKEND_TS_LIMIT as int) <= self.starts_at_unix_timestamp as int
            <= BOOKEND_TS_LIMIT as int
        &&& -(BOOKEND_TS_LIMIT as int) <= self.ends_at_unix_timestamp as int
            <= BOOKEND_TS_LIMIT as int
        &&& forall|i: int|
            0 <= i < self.recurring_series@.len() ==> spec_rule_wf(
                #[trigger] self.recurring_series@[i],
            )
    }

    /// Builds a schedule over `[starts_at, ends_at)` anchored to a named
    /// IANA zone; an unrecognized zone name is a configuration error.
    pub fn new(
        starts_at_unix_timestamp: i64,
        ends_at_unix_timestamp: i64,
        time_zone: &str,
    ) -> (r: Result<Schedule, ScheduleError>)
        requires
            -BOOKEND_TS_LIMIT <= starts_at_unix_timestamp <= BOOKEND_TS_LIMIT,
            -BOOKEND_TS_LIMIT <= ends_at_unix_timestamp <= BOOKEND_TS_LIMIT,
        ensures
            r is Ok <==> zone_name_recognized(time_zone@),
            r matches Ok(s) ==> {
                &&& s.wf()
                &&& s.starts_at_unix_timestamp == starts_at_unix_timestamp
                &&& s.ends_at_unix_timestamp == ends_at_unix_timestamp
                &&& s.zone.id() == time_zone@
                &&& s.recurring_series@ == Seq::<RecurringSeries>::empty()
                &&& s.sorted_exclusions@ == Seq::<Exclusion>::empty()
            },
            r matches Err(e) ==> e == ScheduleError::UnrecognizedTimeZone,
    {
        match Zone::from_name(time_zone) {
            Some(zone) => Ok(
                Schedule {
                    starts_at_unix_timestamp,
                    ends_at_unix_timestamp,
                    zone,
                    recurring_series: Vec::new(),
                    sorted_exclusions: SortedExclusions::new(),
                },
            ),
            None => Err(ScheduleError::UnrecognizedTimeZone),
        }
    }

    /// The IANA name of the schedule's zone.
    pub fn time_zone(&self) -> (r: &str)
        ensures
            r@ == self.zone.id(),
    {
        self.zone.name()
    }

    /// Registers one excluded interval.
    pub fn add_exclusion(&mut self, starts_at_unix_timestamp: i64, ends_at_unix_timestamp: i64)
        ensures
            final(self).sorted_exclusions@ == spec_sort_by_end(
                old(self).sorted_exclusions@.push(
                    Exclusion { starts_at_unix_timestamp, ends_at_unix_timestamp },
                ),
            ),
            final(self).starts_at_unix_timestamp == old(self).starts_at_unix_timestamp,
            final(self).ends_at_unix_timestamp == old(self).ends_at_unix_timestamp,
            final(self).zone == old(self).zone,
            final(self).recurring_series == old(self).recurring_series,
    {
        self.sorted_exclusions.add_exclusion(
            Exclusion { starts_at_unix_timestamp, ends_at_unix_timestamp },
        );
    }

    /// Registers a batch of excluded intervals, sorting once.
    pub fn add_exclusions(&mut self, exclusions: Vec<(i64, i64)>)
        ensures
            final(self).sorted_exclusions@ == spec_sort_by_end(
                old(self).sorted_exclusions@ + spec_exclusions_of(exclusions@),
            ),
            final(self).starts_at_unix_timestamp == old(self).starts_at_unix_timestamp,
            final(self).ends_at_unix_timestamp == old(self).ends_at_unix_timestamp,
            final(self).zone == old(self).zone,
            final(self).recurring_series == old(self).recurring_series,
    {
        let mut converted: Vec<Exclusion> = Vec::new();
        let mut i: usize = 0;
        proof {
            assert(converted@ =~= spec_exclusions_of(exclusions@.take(0)));
        }
        loop
            invariant
                i <= exclusions@.len(),
                converted@ == spec_exclusions_of(exclusions@.take(i as int)),
            ensures
                converted@ == spec_exclusions_of(exclusions@),
            decreases exclusions@.len() - i,
        {
            if i >= exclusions.len() {
                proof {
                    assert(exclusions@.take(exclusions@.len() as int) =~= exclusions@);
                }
                break;
            }
            let pair = exclusions[i];
            converted.push(Exclusion {
                starts_at_unix_timestamp: pair.0,
                ends_at_unix_timestamp: pair.1,
            });
            proof {
                assert(converted@ =~= spec_exclusions_of(exclusions@.take(i + 1)));
            }
            i = i + 1;
        }
        self.sorted_exclusions.add_exclusions(&mut converted);
    }

    /// Registers a minutely rule.
    pub fn repeat_minutely(&mut self, options: SeriesOptions)
        requires
            options@.wf(),
        ensures
            final(self).recurring_series@ == old(self).recurring_series@.push(
                RecurringSeries::Minutely(Minutely { series_options: options }),
            ),
            final(self).starts_at_unix_timestamp == old(self).starts_at_unix_timestamp,
            final(self).ends_at_unix_timestamp == old(self).ends_at_unix_timestamp,
            final(self).zone == old(self).zone,
            final(self).sorted_exclusions == old(self).sorted_exclusions,
            old(self).wf() ==> final(self).wf(),
    {
        let series = Minutely::new(options);
        self.recurring_series.push(RecurringSeries::Minutely(series));
    }

    /// Registers an hourly rule.
    pub fn repeat_hourly(&mut self, options: SeriesOptions)
        requires
            options@.wf(),
        ensures
            final(self).recurring_series@ == old(self).recurring_series@.push(
                RecurringSeries::Hourly(Hourly { series_options: options }),
            ),
            final(self).starts_at_unix_timestamp == old(self).starts_at_unix_timestamp,
            final(self).ends_at_unix_timestamp == old(self).ends_at_unix_timestamp,
            final(self).zone == old(self).zone,
            final(self).sorted_exclusions == old(self).sorted_exclusions,
            old(self).wf() ==> final(self).wf(),
    {
        let series = Hourly::new(options);
        self.recurring_series.push(RecurringSeries::Hourly(series));
    }

    /// Registers a daily rule.
    pub fn repeat_daily(&mut self, options: SeriesOptions)
        requires
            options@.wf(),
        ensures
            final(self).recurring_series@ == old(self).recurring_series@.push(
                RecurringSeries::Daily(Daily { series_options: options }),
            ),
            final(self).starts_at_unix_timestamp == old(self).starts_at_unix_timestamp,
            final(self).ends_at_unix_timestamp == old(self).ends_at_unix_timestamp,
            final(self).zone == old(self).zone,
            final(self).sorted_exclusions == old(self).sorted_exclusions,
            old(self).wf() ==> final(self).wf(),
    {
        let series = Daily::new(options);
        self.recurring_series.push(RecurringSeries::Daily(series));
    }

    /// Registers a weekly rule on a named weekday; an unknown weekday token
    /// is a configuration error and leaves the schedule unchanged.
    pub fn repeat_weekly(&mut self, weekday: &str, options: SeriesOptions) -> (r: Result<
        (),
        ScheduleError,
    >)
        requires
            options@.wf(),
        ensures
            r is Ok <==> Weekday::spec_from_token(weekday@) is Some,
            r is Ok ==> final(self).recurring_series@ == old(self).recurring_series@.push(
                RecurringSeries::Weekly(
                    Weekly {
                        weekday: Weekday::spec_from_token(weekday@)->0,
                        series_options: options,
                    },
                ),
            ),
            r is Err ==> *final(self) == *old(self),
            r matches Err(e) ==> e == ScheduleError::UnknownWeekday,
            final(self).starts_at_unix_timestamp == old(self).starts_at_unix_timestamp,
            final(self).ends_at_unix_timestamp == old(self).ends_at_unix_timestamp,
            final(self).zone == old(self).zone,
            final(self).sorted_exclusions == old(self).sorted_exclusions,
            old(self).wf() ==> final(self).wf(),
    {
        let parsed = Weekday::from_token(weekday)?;
        let series = Weekly::new(parsed, options);
        self.recurring_series.push(RecurringSeries::Weekly(series));
        Ok(())
    }

    /// Registers a monthly rule on a day of month; a day outside 1..=31 is
    /// a configuration error and leaves the schedule unchanged.
    pub fn repeat_monthly_by_day(&mut self, day_number: u32, options: SeriesOptions) -> (r: Result<
        (),
        ScheduleError,
    >)
        requires
            options@.wf(),
        ensures
            r is Ok <==> 1 <= day_number <= 31,
            r is Ok ==> final(self).recurring_series@ == old(self).recurring_series@.push(
                RecurringSeries::MonthlyByDay(MonthlyByDay { day_number, series_options: options }),
            ),
            r is Err ==> *final(self) == *old(self),
            r matches Err(e) ==> e == ScheduleError::InvalidDayOfMonth,
            final(self).starts_at_unix_timestamp == old(self).starts_at_unix_timestamp,
            final(self).ends_at_unix_timestamp == old(self).ends_at_unix_timestamp,
            final(self).zone == old(self).zone,
            final(self).sorted_exclusions == old(self).sorted_exclusions,
            old(self).wf() ==> final(self).wf(),
    {
        let series = MonthlyByDay::new(day_number, options)?;
        self.recurring_series.push(RecurringSeries::MonthlyByDay(series));
        Ok(())
    }

    /// Registers a monthly rule on the signed nth occurrence of a named
    /// weekday; an unknown weekday token or an index of magnitude above 5
    /// is a configuration error and leaves the schedule unchanged.
    pub fn repeat_monthly_by_nth_weekday(
        &mut self,
        weekday: &str,
        nth_day: i32,
        options: SeriesOptions,
    ) -> (r: Result<(), ScheduleError>)
        requires
            options@.wf(),
        ensures
            r is Ok <==> (Weekday::spec_from_token(weekday@) is Some && -5 <= nth_day <= 5),
            r is Ok ==> final(self).recurring_series@ == old(self).recurring_series@.push(
                RecurringSeries::MonthlyByNthWeekday(
                    MonthlyByNthWeekday {
                        weekday: Weekday::spec_from_token(weekday@)->0,
                        nth_weekday: nth_day,
                        series_options: options,
                    },
                ),
            ),
            r is Err ==> *final(self) == *old(self),
            r matches Err(e) ==> (e == ScheduleError::UnknownWeekday || e
                == ScheduleError::InvalidNthWeekday),
            final(self).starts_at_unix_timestamp == old(self).starts_at_unix_timestamp,
            final(self).ends_at_unix_timestamp == old(self).ends_at_unix_timestamp,
            final(self).zone == old(self).zone,
            final(self).sorted_exclusions == old(self).sorted_exclusions,
            old(self).wf() ==> final(self).wf(),
    {
        let parsed = Weekday::from_token(weekday)?;
        let series = MonthlyByNthWeekday::new(parsed, nth_day, options)?;
        self.recurring_series.push(RecurringSeries::MonthlyByNthWeekday(series));
        Ok(())
    }

    /// Registers an annual rule on an ordinal day of year; a day outside
    /// 1..=366 is a configuration error and leaves the schedule unchanged.
    pub fn repeat_annually_by_day(&mut self, day_number: u32, options: SeriesOptions) -> (r: Result<
        (),
        ScheduleError,
    >)
        requires
            options@.wf(),
        ensures
            r is Ok <==> 1 <= day_number <= 366,
            r is Ok ==> final(self).recurring_series@ == old(self).recurring_series@.push(
                RecurringSeries::AnnuallyByDay(
                    AnnuallyByDay { day_number, series_options: options },
                ),
            ),
            r is Err ==> *final(self) == *old(self),
            r matches Err(e) ==> e == ScheduleError::InvalidDayOfYear,
            final(self).starts_at_unix_timestamp == old(self).starts_at_unix_timestamp,
            final(self).ends_at_unix_timestamp == old(self).ends_at_unix_timestamp,
            final(self).zone == old(self).zone,
            final(self).sorted_exclusions == old(self).sorted_exclusions,
            old(self).wf() ==> final(self).wf(),
    {
        let series = AnnuallyByDay::new(day_number, options)?;
        self.recurring_series.push(RecurringSeries::AnnuallyByDay(series));
        Ok(())
    }

    /// The largest occurrence duration across the registered rules; `None`
    /// with no rules.
    pub fn longest_occurrence_duration_in_seconds(&self) -> (r: Option<i64>)
        requires
            self.wf(),
        ensures
            r is None <==> self.recurring_series@.len() == 0,
            r matches Some(d) ==> d as int == spec_longest_duration(self.recurring_series@),
    {
        if self.recurring_series.len() == 0 {
            return None;
        }
        let ghost rules = self.recurring_series@;
        let mut best: i64 = 0;
        let mut i: usize = 0;
        proof {
            assert(rules.take(0) =~= Seq::<RecurringSeries>::empty());
        }
        loop
            invariant
                i <= rules.len(),
                rules == self.recurring_series@,
                self.wf(),
                best as int == spec_longest_duration(rules.take(i as int)),
                0 <= best,
            ensures
                best as int == spec_longest_duration(rules),
            decreases rules.len() - i,
        {
            if i >= self.recurring_series.len() {
                proof {
                    assert(rules.take(rules.len() as int) =~= rules);
                }
                break;
            }
            let d = self.recurring_series[i].get_occurrence_duration_in_seconds();
            proof {
                assert(spec_rule_wf(rules[i as int]));
                let next = rules.take(i + 1);
                assert(next.drop_last() =~= rules.take(i as int));
                assert(next.last() == rules[i as int]);
            }
            if d > best {
                best = d;
            }
            i = i + 1;
        }
        Some(best)
    }

    /// Expands every rule over the given window (each rule's private
    /// bookends, when present, override it), drops excluded occurrences,
    /// and sorts ascending by start. `None` falls back to the schedule's
    /// own bookends.
    fn generate_occurrences(&self, starts_at: Option<i64>, ends_at: Option<i64>) -> (r: Vec<
        Occurrence,
    >)
        requires
            self.wf(),
            starts_at matches Some(t) ==> window_in_range(t as int),
            ends_at matches Some(t) ==> window_in_range(t as int),
        ensures
            r@ == spec_generated(
                self.recurring_series@,
                self.zone.id(),
                spec_resolve_bookend(starts_at, self.starts_at_unix_timestamp as int),
                spec_resolve_bookend(ends_at, self.ends_at_unix_timestamp as int),
                self.sorted_exclusions@,
            ),
            sorted_by_start(r@),
    {
        let ghost zid = self.zone.id();
        let starts = match starts_at {
            Some(t) => t,
            None => self.starts_at_unix_timestamp,
        };
        let ends = match ends_at {
            Some(t) => t,
            None => self.ends_at_unix_timestamp,
        };
        let ghost s_i = starts as int;
        let ghost e_i = ends as int;
        let ghost rules = self.recurring_series@;

        let mut all: Vec<Occurrence> = Vec::new();
        let mut i: usize = 0;
        proof {
            assert(rules.take(0) =~= Seq::<RecurringSeries>::empty());
        }
        loop
            invariant
                i <= rules.len(),
                rules == self.recurring_series@,
                zid == self.zone.id(),
                self.wf(),
                s_i == starts as int,
                e_i == ends as int,
                window_in_range(s_i),
                window_in_range(e_i),
                all@ == spec_schedule_raw(rules.take(i as int), zid, s_i, e_i),
            ensures
                all@ == spec_schedule_raw(rules, zid, s_i, e_i),
            decreases rules.len() - i,
        {
            if i >= self.recurring_series.len() {
                proof {
                    assert(rules.take(rules.len() as int) =~= rules);
                }
                break;
            }
            proof {
                assert(spec_rule_wf(rules[i as int]));
            }
            let mut occs = self.recurring_series[i].generate_occurrences(&self.zone, starts, ends);
            proof {
                let next = rules.take(i + 1);
                assert(next.drop_last() =~= rules.take(i as int));
                assert(next.last() == rules[i as int]);
            }
            all.append(&mut occs);
            i = i + 1;
        }

        let ghost rawv = all@;
        let ghost exv = self.sorted_exclusions@;
        let mut kept: Vec<Occurrence> = Vec::new();
        proof {
            assert(rawv.take(0) =~= Seq::<Occurrence>::empty());
            assert(rawv.skip(0) =~= rawv);
        }
        loop
            invariant
                all@.len() <= rawv.len(),
                all@ == rawv.skip(rawv.len() - all@.len()),
                exv == self.sorted_exclusions@,
                kept@ == spec_without_excluded(rawv.take(rawv.len() - all@.len()), exv),
            ensures
                kept@ == spec_without_excluded(rawv, exv),
            decreases all@.len(),
        {
            if all.len() == 0 {
                proof {
                    assert(rawv.take(rawv.len() as int) =~= rawv);
                }
                break;
            }
            let ghost d = rawv.len() - all@.len();
            let o = all.remove(0);
            proof {
                assert(rawv.skip(d as int)[0] == rawv[d as int]);
                assert(o == rawv[d as int]);
                assert(all@ =~= rawv.skip(d + 1));
            }
            let excluded = self.sorted_exclusions.is_occurrence_excluded(&o);
            if !excluded {
                kept.push(o);
            }
            proof {
                let next = rawv.take(d + 1);
                assert(next.drop_last() =~= rawv.take(d as int));
                assert(next.last() == rawv[d as int]);
            }
        }

        sort_occurrences_by_start(kept)
    }

    /// The full expansion: every rule over the schedule's own bookends,
    /// excluded occurrences dropped, sorted ascending by start timestamp.
    pub fn occurrences(&self) -> (r: Vec<Occurrence>)
        requires
            self.wf(),
        ensures
            r@ == spec_generated(
                self.recurring_series@,
                self.zone.id(),
                self.starts_at_unix_timestamp as int,
                self.ends_at_unix_timestamp as int,
                self.sorted_exclusions@,
            ),
            sorted_by_start(r@),
            forall|j: int|
                0 <= j < r@.len() ==> spec_occurrence_kept(
                    self.sorted_exclusions@,
                    #[trigger] r@[j],
                ),
    {
        let r = self.generate_occurrences(None, None);
        proof {
            self.lemma_generated_not_excluded(
                self.starts_at_unix_timestamp as int,
                self.ends_at_unix_timestamp as int,
                r@,
            );
        }
        r
    }

    /// Whatever `spec_generated` yields keeps only occurrences that escape
    /// every exclusion.
    proof fn lemma_generated_not_excluded(&self, lo: int, hi: int, r: Seq<Occurrence>)
        requires
            r == spec_generated(
                self.recurring_series@,
                self.zone.id(),
                lo,
                hi,
                self.sorted_exclusions@,
            ),
        ensures
            forall|j: int|
                0 <= j < r.len() ==> spec_occurrence_kept(self.sorted_exclusions@, #[trigger] r[j]),
    {
        let exv = self.sorted_exclusions@;
        let raw = spec_schedule_raw(self.recurring_series@, self.zone.id(), lo, hi);
        let filtered = spec_without_excluded(raw, exv);
        let pred = |o: Occurrence| spec_occurrence_kept(exv, o);
        lemma_keep_all_hold(raw, pred);
        assert forall|j: int| 0 <= j < r.len() implies spec_occurrence_kept(exv, #[trigger] r[j]) by {
            assert(r.contains(r[j]));
            lemma_sort_by_start_contains(filtered, r[j]);
            assert(filtered.contains(r[j]));
            let i = choose|i: int| 0 <= i < filtered.len() && filtered[i] == r[j];
            assert(pred(filtered[i]));
        }
    }

    /// The occurrences wholly contained in the ad hoc window `[lo, hi)`:
    /// expansion uses the window as generation bookends (narrower private
    /// rule bookends still apply), and only occurrences with
    /// `lo <= start` and `end <= hi` are returned, sorted by start.
    pub fn occurrences_contained_within_interval(
        &self,
        starts_at_unix_timestamp: i64,
        ends_at_unix_timestamp: i64,
    ) -> (r: Vec<Occurrence>)
        requires
            self.wf(),
            -BOOKEND_TS_LIMIT <= starts_at_unix_timestamp <= BOOKEND_TS_LIMIT,
            -BOOKEND_TS_LIMIT <= ends_at_unix_timestamp <= BOOKEND_TS_LIMIT,
        ensures
            r@ == spec_contained_query(
                self.recurring_series@,
                self.zone.id(),
                self.sorted_exclusions@,
                starts_at_unix_timestamp as int,
                ends_at_unix_timestamp as int,
            ),
            sorted_by_start(r@),
            forall|j: int|
                0 <= j < r@.len() ==> (starts_at_unix_timestamp as int)
                    <= ((#[trigger] r@[j]).starts_at_unix_timestamp as int)
                    && (r@[j].ends_at_unix_timestamp as int) <= (ends_at_unix_timestamp as int),
            forall|j: int|
                0 <= j < r@.len() ==> spec_occurrence_kept(
                    self.sorted_exclusions@,
                    #[trigger] r@[j],
                ),
    {
        let ghost lo = starts_at_unix_timestamp as int;
        let ghost hi = ends_at_unix_timestamp as int;
        let interval = Interval::new(starts_at_unix_timestamp, ends_at_unix_timestamp);
        let generated = self.generate_occurrences(
            Some(interval.starts_at()),
            Some(interval.ends_at()),
        );
        let ghost genv = generated@;
        let r = filter_contained(generated, &interval);
        proof {
            let pred = |o: Occurrence| spec_occ_contained(lo, hi, o);
            lemma_keep_all_hold(genv, pred);
            lemma_keep_sorted(genv, pred);
            self.lemma_generated_not_excluded(lo, hi, genv);
            lemma_keep_contains(genv, pred);
            assert forall|j: int| 0 <= j < r@.len() implies spec_occurrence_kept(
                self.sorted_exclusions@,
                #[trigger] r@[j],
            ) by {
                assert(genv.contains(r@[j]));
                let i = choose|i: int| 0 <= i < genv.len() && genv[i] == r@[j];
                assert(spec_occurrence_kept(self.sorted_exclusions@, genv[i]));
            }
        }
        r
    }

    /// The occurrences intersecting the ad hoc window `[lo, hi)` at all:
    /// generation is widened by the largest registered duration on both
    /// sides, so an occurrence starting before the window but extending
    /// into it is still found; only occurrences with `start < hi` and
    /// `lo < end` are returned, sorted by start.
    pub fn occurrences_overlapping_with_interval(
        &self,
        starts_at_unix_timestamp: i64,
        ends_at_unix_timestamp: i64,
    ) -> (r: Vec<Occurrence>)
        requires
            self.wf(),
            -BOOKEND_TS_LIMIT <= starts_at_unix_timestamp <= BOOKEND_TS_LIMIT,
            -BOOKEND_TS_LIMIT <= ends_at_unix_timestamp <= BOOKEND_TS_LIMIT,
        ensures
            r@ == spec_overlapping_query(
                self.recurring_series@,
                self.zone.id(),
                self.sorted_exclusions@,
                starts_at_unix_timestamp as int,
                ends_at_unix_timestamp as int,
            ),
            sorted_by_start(r@),
            forall|j: int|
                0 <= j < r@.len() ==> ((#[trigger] r@[j]).starts_at_unix_timestamp as int)
                    < (ends_at_unix_timestamp as int) && (starts_at_unix_timestamp as int)
                    < (r@[j].ends_at_unix_timestamp as int),
            forall|j: int|
                0 <= j < r@.len() ==> spec_occurrence_kept(
                    self.sorted_exclusions@,
                    #[trigger] r@[j],
                ),
    {
        let ghost lo = starts_at_unix_timestamp as int;
        let ghost hi = ends_at_unix_timestamp as int;
        let interval = Interval::new(starts_at_unix_timestamp, ends_at_unix_timestamp);
        // By constraining the examined window to the requested interval,
        // +/- the duration of the longest registered event, the expansion
        // stays conservative and still finds every occurrence that could
        // conceivably overlap.
        let longest = match self.longest_occurrence_duration_in_seconds() {
            Some(d) => d,
            None => 0,
        };
        proof {
            lemma_longest_duration_bounds(self.recurring_series@);
        }
        let examined_window_starts_at = interval.starts_at() - longest;
        let examined_window_ends_at = interval.ends_at() + longest;
        let generated = self.generate_occurrences(
            Some(examined_window_starts_at),
            Some(examined_window_ends_at),
        );
        let ghost genv = generated@;
        let r = filter_overlapping(generated, &interval);
        proof {
            let pred = |o: Occurrence| spec_occ_overlapping(lo, hi, o);
            lemma_keep_all_hold(genv, pred);
            lemma_keep_sorted(genv, pred);
            self.lemma_generated_not_excluded(
                examined_window_starts_at as int,
                examined_window_ends_at as int,
                genv,
            );
            lemma_keep_contains(genv, pred);
            assert forall|j: int| 0 <= j < r@.len() implies spec_occurrence_kept(
                self.sorted_exclusions@,
                #[trigger] r@[j],
            ) by {
                assert(genv.contains(r@[j]));
                let i = choose|i: int| 0 <= i < genv.len() && genv[i] == r@[j];
                assert(spec_occurrence_kept(self.sorted_exclusions@, genv[i]));
            }
        }
        r
    }
}

/// Keeps the occurrences the window wholly contains, in order.
fn filter_contained(v: Vec<Occurrence>, interval: &Interval) -> (r: Vec<Occurrence>)
    ensures
        r@ == spec_keep(
            v@,
            |o: Occurrence|
                spec_occ_contained(
                    interval.starts_at_unix_timestamp as int,
                    interval.ends_at_unix_timestamp as int,
                    o,
                ),
        ),
{
    let ghost lo = interval.starts_at_unix_timestamp as int;
    let ghost hi = interval.ends_at_unix_timestamp as int;
    let ghost pred = |o: Occurrence| spec_occ_contained(lo, hi, o);
    let ghost orig = v@;
    let mut input = v;
    let mut out: Vec<Occurrence> = Vec::new();
    proof {
        assert(orig.take(0) =~= Seq::<Occurrence>::empty());
        assert(orig.skip(0) =~= orig);
    }
    loop
        invariant
            input@.len() <= orig.len(),
            input@ == orig.skip(orig.len() - input@.len()),
            pred == (|o: Occurrence| spec_occ_contained(lo, hi, o)),
            lo == interval.starts_at_unix_timestamp as int,
            hi == interval.ends_at_unix_timestamp as int,
            out@ == spec_keep(orig.take(orig.len() - input@.len()), pred),
        ensures
            out@ == spec_keep(orig, pred),
        decreases input@.len(),
    {
        if input.len() == 0 {
            proof {
                assert(orig.take(orig.len() as int) =~= orig);
            }
            break;
        }
        let ghost d = orig.len() - input@.len();
        let o = input.remove(0);
        proof {
            assert(orig.skip(d as int)[0] == orig[d as int]);
            assert(o == orig[d as int]);
            assert(input@ =~= orig.skip(d + 1));
        }
        let keep_it = interval.contains(&o);
        if keep_it {
            out.push(o);
        }
        proof {
            let next = orig.take(d + 1);
            assert(next.drop_last() =~= orig.take(d as int));
            assert(next.last() == orig[d as int]);
        }
    }
    out
}

/// Keeps the occurrences intersecting the window, in order.
fn filter_overlapping(v: Vec<Occurrence>, interval: &Interval) -> (r: Vec<Occurrence>)
    ensures
        r@ == spec_keep(
            v@,
            |o: Occurrence|
                spec_occ_overlapping(
                    interval.starts_at_unix_timestamp as int,
                    interval.ends_at_unix_timestamp as int,
                    o,
                ),
        ),
{
    let ghost lo = interval.starts_at_unix_timestamp as int;
    let ghost hi = interval.ends_at_unix_timestamp as int;
    let ghost pred = |o: Occurrence| spec_occ_overlapping(lo, hi, o);
    let ghost orig = v@;
    let mut input = v;
    let mut out: Vec<Occurrence> = Vec::new();
    proof {
        assert(orig.take(0) =~= Seq::<Occurrence>::empty());
        assert(orig.skip(0) =~= orig);
    }
    loop
        invariant
            input@.len() <= orig.len(),
            input@ == orig.skip(orig.len() - input@.len()),
            pred == (|o: Occurrence| spec_occ_overlapping(lo, hi, o)),
            lo == interval.starts_at_unix_timestamp as int,
            hi == interval.ends_at_unix_timestamp as int,
            out@ == spec_keep(orig.take(orig.len() - input@.len()), pred),
        ensures
            out@ == spec_keep(orig, pred),
        decreases input@.len(),
    {
        if input.len() == 0 {
            proof {
                assert(orig.take(orig.len() as int) =~= orig);
            }
            break;
        }
        let ghost d = orig.len() - input@.len();
        let o = input.remove(0);
        proof {
            assert(orig.skip(d as int)[0] == orig[d as int]);
            assert(o == orig[d as int]);
            assert(input@ =~= orig.skip(d + 1));
        }
        let keep_it = interval.overlaps_with(&o);
        if keep_it {
            out.push(o);
        }
        proof {
            let next = orig.take(d + 1);
            assert(next.drop_last() =~= orig.take(d as int));
            assert(next.last() == orig[d as int]);
        }
    }
    out
}

} // verus!
