//! The recurrence-rule variants. Each variant answers two questions for the
//! shared expansion driver: is the cursor (or something derivable from it) a
//! valid occurrence moment, and where does the cursor move next.
//!
//! Every cursor movement is mirrored exactly by a spec function over the
//! named zone facts, so the whole expansion is a proved function of the rule,
//! the zone name and the window. Every advance is routed through the forward
//! guard of the clock module, so a cursor always makes bounded forward
//! progress and expansion terminates whatever the zone tables hold.

use vstd::prelude::*;
use crate::clock::{
    MAX_CURSOR_STEP, advance_time_safely, set_datetime_cursor_safely, spec_advance_time_safely,
    spec_set_datetime_cursor_safely, spec_step_forward, step_forward,
};
use crate::errors::ScheduleError;
use crate::series_options::SeriesOptions;
use crate::time_of_day::{TimeOfDay, TimeOfDayModel};
use crate::weekday::Weekday;
use crate::zone::{
    WRAPPER_TS_LIMIT, Zone, opt_ts, seq_ts, ts_in_wrapper_range, utc_add_months, utc_add_months_exec,
    utc_with_year, utc_with_year_exec, zone_add_days, zone_add_months, zone_day, zone_month,
    zone_ordinal, zone_pin, zone_weekday, zone_with_day, zone_with_month, zone_with_ordinal,
    zone_with_year, zone_year,
};

verus! {

/// Magnitude bound on a cursor during expansion: generation windows stay
/// within twice the bookend bound, and a cursor never moves more than one
/// guarded step past a window.
pub const CURSOR_TS_LIMIT: i64 = 2_100_000_000_000;

/// One minute, in seconds.
pub const MINUTE_SECONDS: i64 = 60;

/// One hour, in seconds.
pub const HOUR_SECONDS: i64 = 3600;

/// One day, in seconds.
pub const DAY_SECONDS: i64 = 86_400;

/// One week, in seconds.
pub const WEEK_SECONDS: i64 = 604_800;

/// The nominal stride of a monthly rule: thirty days.
pub const MONTH_STEP_SECONDS: i64 = 2_592_000;

/// The nominal stride of an annual rule: 365 days.
pub const YEAR_STEP_SECONDS: i64 = 31_536_000;

/// Whether a cursor is within the expansion range.
pub open spec fn cursor_in_range(ts: int) -> bool {
    -(CURSOR_TS_LIMIT as int) <= ts <= CURSOR_TS_LIMIT as int
}

/// A rule firing every minute at the configured second past the minute.
#[derive(Debug)]
pub struct Minutely {
    pub series_options: SeriesOptions,
}

/// A rule firing every hour.
#[derive(Debug)]
pub struct Hourly {
    pub series_options: SeriesOptions,
}

/// A rule firing every day at the configured wall time.
#[derive(Debug)]
pub struct Daily {
    pub series_options: SeriesOptions,
}

/// A rule firing on one weekday each week, at the configured wall time.
#[derive(Debug)]
pub struct Weekly {
    pub weekday: Weekday,
    pub series_options: SeriesOptions,
}

/// A rule firing on one day of the month (1-based) each month.
#[derive(Debug)]
pub struct MonthlyByDay {
    pub day_number: u32,
    pub series_options: SeriesOptions,
}

/// A rule firing on the signed nth occurrence of a weekday each month:
/// a non-negative `nth_weekday` counts 0-based from the start of the month,
/// a negative one counts from the end (-1 is the last).
#[derive(Debug)]
pub struct MonthlyByNthWeekday {
    pub weekday: Weekday,
    pub nth_weekday: i32,
    pub series_options: SeriesOptions,
}

/// A rule firing on one ordinal day of the year (1-based) each year.
#[derive(Debug)]
pub struct AnnuallyByDay {
    pub day_number: u32,
    pub series_options: SeriesOptions,
}

/// The closed set of recurrence-rule variants.
#[derive(Debug)]
pub enum RecurringSeries {
    Minutely(Minutely),
    Hourly(Hourly),
    Daily(Daily),
    Weekly(Weekly),
    MonthlyByDay(MonthlyByDay),
    MonthlyByNthWeekday(MonthlyByNthWeekday),
    AnnuallyByDay(AnnuallyByDay),
}

impl Minutely {
    /// Wraps options into a minutely rule.
    pub fn new(series_options: SeriesOptions) -> (r: Minutely)
        ensures
            r.series_options == series_options,
    {
        Minutely { series_options }
    }
}

impl Hourly {
    /// Wraps options into an hourly rule.
    pub fn new(series_options: SeriesOptions) -> (r: Hourly)
        ensures
            r.series_options == series_options,
    {
        Hourly { series_options }
    }
}

impl Daily {
    /// Wraps options into a daily rule.
    pub fn new(series_options: SeriesOptions) -> (r: Daily)
        ensures
            r.series_options == series_options,
    {
        Daily { series_options }
    }
}

impl Weekly {
    /// Wraps a parsed weekday and options into a weekly rule.
    pub fn new(weekday: Weekday, series_options: SeriesOptions) -> (r: Weekly)
        ensures
            r.weekday == weekday,
            r.series_options == series_options,
    {
        Weekly { weekday, series_options }
    }
}

impl MonthlyByDay {
    /// Wraps a day of month and options into a monthly rule, rejecting a
    /// day outside 1..=31.
    pub fn new(day_number: u32, series_options: SeriesOptions) -> (r: Result<
        MonthlyByDay,
        ScheduleError,
    >)
        ensures
            r is Ok <==> 1 <= day_number <= 31,
            r matches Ok(m) ==> m.day_number == day_number && m.series_options == series_options,
            r matches Err(e) ==> e == ScheduleError::InvalidDayOfMonth,
    {
        if 1 <= day_number && day_number <= 31 {
            Ok(MonthlyByDay { day_number, series_options })
        } else {
            Err(ScheduleError::InvalidDayOfMonth)
        }
    }
}

impl MonthlyByNthWeekday {
    /// Wraps a weekday, a signed nth index and options into a monthly
    /// nth-weekday rule, rejecting an index of magnitude above 5: no month
    /// holds more than five occurrences of one weekday.
    pub fn new(weekday: Weekday, nth_weekday: i32, series_options: SeriesOptions) -> (r: Result<
        MonthlyByNthWeekday,
        ScheduleError,
    >)
        ensures
            r is Ok <==> -5 <= nth_weekday <= 5,
            r matches Ok(m) ==> m.weekday == weekday && m.nth_weekday == nth_weekday
                && m.series_options == series_options,
            r matches Err(e) ==> e == ScheduleError::InvalidNthWeekday,
    {
        if -5 <= nth_weekday && nth_weekday <= 5 {
            Ok(MonthlyByNthWeekday { weekday, nth_weekday, series_options })
        } else {
            Err(ScheduleError::InvalidNthWeekday)
        }
    }

    /// Where the signed nth-weekday index lands in a collection of
    /// `count` matching weekdays: a non-negative index stands as is, a
    /// negative one counts from the end; `None` when it is still negative
    /// after the transform. An index at or beyond `count` is reported as
    /// is and rejected by the lookup.
    pub open spec fn spec_resolve_nth_index(nth: int, count: int) -> Option<int> {
        if nth >= 0 {
            Some(nth)
        } else if count + nth >= 0 {
            Some(count + nth)
        } else {
            None
        }
    }

    /// Resolves the signed nth-weekday index against a collection size.
    pub fn get_unsigned_nth_weekday_index_from_signed(&self, collection_size: usize) -> (r: Option<
        usize,
    >)
        requires
            -5 <= self.nth_weekday <= 5,
        ensures
            match Self::spec_resolve_nth_index(self.nth_weekday as int, collection_size as int) {
                Some(i) => r matches Some(v) && v as int == i,
                None => r is None,
            },
    {
        if self.nth_weekday >= 0 {
            Some(self.nth_weekday as usize)
        } else {
            let back: usize = (-self.nth_weekday) as usize;
            if collection_size >= back {
                Some(collection_size - back)
            } else {
                None
            }
        }
    }
}

impl AnnuallyByDay {
    /// Wraps an ordinal day of year and options into an annual rule,
    /// rejecting a day outside 1..=366.
    pub fn new(day_number: u32, series_options: SeriesOptions) -> (r: Result<
        AnnuallyByDay,
        ScheduleError,
    >)
        ensures
            r is Ok <==> 1 <= day_number <= 366,
            r matches Ok(a) ==> a.day_number == day_number && a.series_options == series_options,
            r matches Err(e) ==> e == ScheduleError::InvalidDayOfYear,
    {
        if 1 <= day_number && day_number <= 366 {
            Ok(AnnuallyByDay { day_number, series_options })
        } else {
            Err(ScheduleError::InvalidDayOfYear)
        }
    }
}

/// The options of a rule, whichever variant it is.
pub open spec fn spec_series_options(r: RecurringSeries) -> SeriesOptions {
    match r {
        RecurringSeries::Minutely(s) => s.series_options,
        RecurringSeries::Hourly(s) => s.series_options,
        RecurringSeries::Daily(s) => s.series_options,
        RecurringSeries::Weekly(s) => s.series_options,
        RecurringSeries::MonthlyByDay(s) => s.series_options,
        RecurringSeries::MonthlyByNthWeekday(s) => s.series_options,
        RecurringSeries::AnnuallyByDay(s) => s.series_options,
    }
}

/// The invariant a registered rule satisfies: well-formed options and
/// kind parameters within their documented ranges.
pub open spec fn spec_rule_wf(r: RecurringSeries) -> bool {
    &&& spec_series_options(r)@.wf()
    &&& match r {
        RecurringSeries::MonthlyByDay(m) => 1 <= m.day_number <= 31,
        RecurringSeries::MonthlyByNthWeekday(m) => -5 <= m.nth_weekday <= 5,
        RecurringSeries::AnnuallyByDay(a) => 1 <= a.day_number <= 366,
        _ => true,
    }
}

/// The wall time of a rule, as a mathematical value.
pub open spec fn spec_rule_time_of_day(r: RecurringSeries) -> TimeOfDayModel {
    spec_series_options(r).time_of_day@
}

/// The candidate the daily rule derives from the cursor: the cursor
/// re-pinned to the wall time under the later mapping, or the raw cursor
/// when pinning lands in a gap.
pub open spec fn spec_daily_candidate(zone: Seq<char>, cursor: int, t: TimeOfDayModel) -> int {
    match zone_pin(zone, cursor, t.hour, t.minute, t.second) {
        Some(p) => p,
        None => cursor,
    }
}

/// The candidate a rule derives from the cursor, if any.
pub open spec fn spec_next_candidate(r: RecurringSeries, zone: Seq<char>, cursor: int) -> Option<
    int,
> {
    let t = spec_rule_time_of_day(r);
    match r {
        RecurringSeries::Minutely(_) => Some(cursor),
        RecurringSeries::Hourly(_) => Some(cursor),
        RecurringSeries::Daily(_) => Some(spec_daily_candidate(zone, cursor, t)),
        RecurringSeries::Weekly(w) => if zone_weekday(zone, cursor) == w.weekday.spec_number() {
            Some(cursor)
        } else {
            None
        },
        RecurringSeries::MonthlyByDay(m) => if zone_day(zone, cursor) == m.day_number as int {
            Some(cursor)
        } else {
            None
        },
        RecurringSeries::MonthlyByNthWeekday(m) => spec_nth_weekday_candidate(m, zone, cursor),
        RecurringSeries::AnnuallyByDay(a) => if zone_ordinal(zone, cursor) == a.day_number as int {
            Some(cursor)
        } else {
            None
        },
    }
}

/// The first instant of the cursor's local month, at the rule's wall time:
/// day of month set to 1, then the wall time pinned. Falls back to the
/// cursor itself when the calendar declines or strays more than one guarded
/// step away.
pub open spec fn spec_start_of_month(zone: Seq<char>, cursor: int, t: TimeOfDayModel) -> int {
    let raw = match zone_with_day(zone, cursor, 1) {
        Some(f) => if ts_in_wrapper_range(f) {
            match zone_pin(zone, f, t.hour, t.minute, t.second) {
                Some(p) => p,
                None => f,
            }
        } else {
            f
        },
        None => cursor,
    };
    if cursor - MAX_CURSOR_STEP <= raw <= cursor + MAX_CURSOR_STEP {
        raw
    } else {
        cursor
    }
}

/// The raw first instant of the month after the one holding `ts`: a year
/// rollover in December, a one-month calendar step otherwise, with the UTC
/// frame as escape. Thirty days past `ts` when every calendar path
/// declines.
pub open spec fn spec_beginning_of_next_month_raw(zone: Seq<char>, ts: int) -> int {
    if zone_month(zone, ts) == 12 {
        let y = zone_year(zone, ts) + 1;
        match zone_with_year(zone, ts, y) {
            Some(a) => if ts_in_wrapper_range(a) {
                match zone_with_month(zone, a, 1) {
                    Some(b) => if ts_in_wrapper_range(b) {
                        match zone_with_day(zone, b, 1) {
                            Some(c) => c,
                            None => ts + MONTH_STEP_SECONDS,
                        }
                    } else {
                        ts + MONTH_STEP_SECONDS
                    },
                    None => ts + MONTH_STEP_SECONDS,
                }
            } else {
                ts + MONTH_STEP_SECONDS
            },
            None => ts + MONTH_STEP_SECONDS,
        }
    } else {
        match zone_add_months(zone, ts, 1) {
            Some(a) => if ts_in_wrapper_range(a) {
                match zone_with_day(zone, a, 1) {
                    Some(b) => b,
                    None => ts + MONTH_STEP_SECONDS,
                }
            } else {
                ts + MONTH_STEP_SECONDS
            },
            None => match utc_add_months(ts, 1) {
                Some(u) => if ts_in_wrapper_range(u) {
                    match zone_with_day(zone, u, 1) {
                        Some(b) => b,
                        None => ts + MONTH_STEP_SECONDS,
                    }
                } else {
                    ts + MONTH_STEP_SECONDS
                },
                None => ts + MONTH_STEP_SECONDS,
            },
        }
    }
}

/// A probing day step inside a month scan: one day forward with the wall
/// time kept, under the forward guard.
pub open spec fn spec_month_scan_step(zone: Seq<char>, ex: int, t: TimeOfDayModel) -> int {
    spec_step_forward(
        ex,
        spec_advance_time_safely(zone, ex, DAY_SECONDS as int, t),
        DAY_SECONDS as int,
    )
}

/// A week step inside a month scan: seven days forward with the wall time
/// kept, under the forward guard.
pub open spec fn spec_month_week_step(zone: Seq<char>, ex: int, t: TimeOfDayModel) -> int {
    spec_step_forward(
        ex,
        spec_advance_time_safely(zone, ex, WEEK_SECONDS as int, t),
        WEEK_SECONDS as int,
    )
}

/// The first instant at or after `ex`, before `eom`, whose local weekday is
/// `wd`; `eom` or beyond when the month holds none.
pub open spec fn spec_weekday_seek(
    zone: Seq<char>,
    wd: int,
    t: TimeOfDayModel,
    ex: int,
    eom: int,
) -> int
    decreases spec_window_fuel(ex, eom),
{
    if ex >= eom {
        ex
    } else if zone_weekday(zone, ex) == wd {
        ex
    } else {
        spec_weekday_seek(zone, wd, t, spec_month_scan_step(zone, ex, t), eom)
    }
}

/// The instants reached from `ex` by week steps while before `eom`.
pub open spec fn spec_weekday_collect(
    zone: Seq<char>,
    t: TimeOfDayModel,
    ex: int,
    eom: int,
) -> Seq<int>
    decreases spec_window_fuel(ex, eom),
{
    if ex >= eom {
        Seq::empty()
    } else {
        seq![ex] + spec_weekday_collect(zone, t, spec_month_week_step(zone, ex, t), eom)
    }
}

/// Loop fuel for a cursor scanning toward a bound: the distance left, or
/// zero once past it.
pub open spec fn spec_window_fuel(cursor: int, end: int) -> nat {
    if cursor < end {
        (end - cursor) as nat
    } else {
        0
    }
}

/// The instants of all days in the cursor's local month sharing the rule's
/// weekday, each at the rule's wall time, ascending.
pub open spec fn spec_weekdays_in_month(
    m: MonthlyByNthWeekday,
    zone: Seq<char>,
    cursor: int,
) -> Seq<int> {
    let t = m.series_options.time_of_day@;
    let som = spec_start_of_month(zone, cursor, t);
    let eom = spec_step_forward(
        som,
        spec_beginning_of_next_month_raw(zone, som),
        MONTH_STEP_SECONDS as int,
    );
    let first = spec_weekday_seek(zone, m.weekday.spec_number(), t, som, eom);
    spec_weekday_collect(zone, t, first, eom)
}

/// The candidate of the monthly nth-weekday rule: the signed index resolved
/// against the month's matching weekdays; none when it falls outside them.
pub open spec fn spec_nth_weekday_candidate(
    m: MonthlyByNthWeekday,
    zone: Seq<char>,
    cursor: int,
) -> Option<int> {
    let list = spec_weekdays_in_month(m, zone, cursor);
    match MonthlyByNthWeekday::spec_resolve_nth_index(m.nth_weekday as int, list.len() as int) {
        Some(i) => if 0 <= i < list.len() {
            Some(list[i])
        } else {
            None
        },
        None => None,
    }
}

/// The daily rule's cursor step: one local calendar day, with a plain
/// 24-hour step as escape, under the forward guard.
pub open spec fn spec_daily_advance(zone: Seq<char>, cursor: int) -> int {
    match zone_add_days(zone, cursor, 1) {
        Some(a) => spec_step_forward(cursor, a, DAY_SECONDS as int),
        None => cursor + DAY_SECONDS,
    }
}

/// The weekly rule's cursor step: a week when the cursor already sits on
/// the right weekday, else a probing day, both wall-time-kept and guarded.
pub open spec fn spec_weekly_advance(
    w: Weekly,
    zone: Seq<char>,
    cursor: int,
) -> int {
    let t = w.series_options.time_of_day@;
    if zone_weekday(zone, cursor) == w.weekday.spec_number() {
        spec_month_week_step(zone, cursor, t)
    } else {
        spec_month_scan_step(zone, cursor, t)
    }
}

/// The monthly-by-day rule's cursor step: one local calendar month
/// re-pinned to the wall time when the cursor sits on the right day (with
/// the UTC frame as escape), else a probing day.
pub open spec fn spec_monthly_by_day_advance(
    m: MonthlyByDay,
    zone: Seq<char>,
    cursor: int,
) -> int {
    let t = m.series_options.time_of_day@;
    if zone_day(zone, cursor) == m.day_number as int {
        match zone_add_months(zone, cursor, 1) {
            Some(a) => if ts_in_wrapper_range(a) {
                match zone_pin(zone, a, t.hour, t.minute, t.second) {
                    Some(p) => spec_step_forward(cursor, p, MONTH_STEP_SECONDS as int),
                    None => spec_step_forward(cursor, a, MONTH_STEP_SECONDS as int),
                }
            } else {
                spec_step_forward(cursor, a, MONTH_STEP_SECONDS as int)
            },
            None => match utc_add_months(cursor, 1) {
                Some(u) => spec_step_forward(cursor, u, MONTH_STEP_SECONDS as int),
                None => cursor + MONTH_STEP_SECONDS,
            },
        }
    } else {
        spec_month_scan_step(zone, cursor, t)
    }
}

/// The monthly nth-weekday rule's cursor step: to the first day of the next
/// month, under the forward guard.
pub open spec fn spec_monthly_by_nth_weekday_advance(zone: Seq<char>, cursor: int) -> int {
    spec_step_forward(
        cursor,
        spec_beginning_of_next_month_raw(zone, cursor),
        MONTH_STEP_SECONDS as int,
    )
}

/// The annual rule's cursor step once it sits on the right ordinal day:
/// one year forward keeping the wall time, with a UTC one-day-nudged year
/// step as escape for leap-day targets, under the forward guard.
pub open spec fn spec_annual_matched_advance(
    zone: Seq<char>,
    cursor: int,
    t: TimeOfDayModel,
) -> int {
    let y = zone_year(zone, cursor) + 1;
    match zone_with_year(zone, cursor, y) {
        Some(n) => if ts_in_wrapper_range(n) {
            spec_step_forward(
                cursor,
                spec_set_datetime_cursor_safely(zone, n, t),
                YEAR_STEP_SECONDS as int,
            )
        } else {
            spec_step_forward(cursor, n, YEAR_STEP_SECONDS as int)
        },
        None => match utc_with_year(cursor + DAY_SECONDS, y) {
            Some(u) => spec_step_forward(cursor, u, YEAR_STEP_SECONDS as int),
            None => cursor + YEAR_STEP_SECONDS,
        },
    }
}

/// The annual rule's cursor step away from the right ordinal day: a jump
/// to the requested ordinal of the cursor's year, pinned to the wall time,
/// taken when it moves forward; else a probing day, so a target earlier in
/// the year is reached in the following one.
pub open spec fn spec_annual_seek_advance(
    a: AnnuallyByDay,
    zone: Seq<char>,
    cursor: int,
    t: TimeOfDayModel,
) -> int {
    let raw = match zone_with_ordinal(zone, cursor, a.day_number as int) {
        Some(j) => j,
        None => cursor + DAY_SECONDS,
    };
    let pinned = if ts_in_wrapper_range(raw) {
        spec_set_datetime_cursor_safely(zone, raw, t)
    } else {
        raw
    };
    if cursor < pinned <= cursor + MAX_CURSOR_STEP {
        pinned
    } else {
        spec_month_scan_step(zone, cursor, t)
    }
}

/// Where a rule moves the cursor next: always strictly forward, by at most
/// one guarded step.
pub open spec fn spec_advance(r: RecurringSeries, zone: Seq<char>, cursor: int) -> int {
    let t = spec_rule_time_of_day(r);
    match r {
        RecurringSeries::Minutely(_) => cursor + MINUTE_SECONDS,
        RecurringSeries::Hourly(_) => cursor + HOUR_SECONDS,
        RecurringSeries::Daily(_) => spec_daily_advance(zone, cursor),
        RecurringSeries::Weekly(w) => spec_weekly_advance(w, zone, cursor),
        RecurringSeries::MonthlyByDay(m) => spec_monthly_by_day_advance(m, zone, cursor),
        RecurringSeries::MonthlyByNthWeekday(_) => spec_monthly_by_nth_weekday_advance(
            zone,
            cursor,
        ),
        RecurringSeries::AnnuallyByDay(a) => if zone_ordinal(zone, cursor) == a.day_number as int {
            spec_annual_matched_advance(zone, cursor, t)
        } else {
            spec_annual_seek_advance(a, zone, cursor, t)
        },
    }
}

/// A daily rule never skips a day and never fails: at every cursor it
/// yields a candidate. On a date where the rule's wall time falls in a
/// spring-forward gap (pinning it onto that date yields nothing), the
/// candidate is the raw cursor — still a valid instant — rather than an
/// error or a missing day.
pub proof fn lemma_daily_gap_day_still_has_candidate(d: Daily, zone: Seq<char>, cursor: int)
    ensures
        spec_next_candidate(RecurringSeries::Daily(d), zone, cursor) is Some,
        zone_pin(
            zone,
            cursor,
            d.series_options.time_of_day@.hour,
            d.series_options.time_of_day@.minute,
            d.series_options.time_of_day@.second,
        ) is None ==> spec_next_candidate(RecurringSeries::Daily(d), zone, cursor) == Some(cursor),
{
}

/// A signed nth-weekday index of -1 always selects the last matching
/// weekday of the cursor's month, whether the month holds four or five of
/// them: the index resolves to the final position of the month's matching
/// weekdays.
pub proof fn lemma_negative_first_selects_last(
    m: MonthlyByNthWeekday,
    zone: Seq<char>,
    cursor: int,
)
    requires
        m.nth_weekday == -1,
        spec_weekdays_in_month(m, zone, cursor).len() >= 1,
    ensures
        spec_nth_weekday_candidate(m, zone, cursor) == Some(
            spec_weekdays_in_month(m, zone, cursor).last(),
        ),
{
}

/// Every advance moves the cursor strictly forward by at most one guarded
/// step: the progress that makes expansion terminate.
pub proof fn lemma_advance_progress(r: RecurringSeries, zone: Seq<char>, cursor: int)
    ensures
        cursor < spec_advance(r, zone, cursor) <= cursor + MAX_CURSOR_STEP,
{
}

impl RecurringSeries {
    /// The options of this rule.
    pub fn get_series_options(&self) -> (r: &SeriesOptions)
        ensures
            *r == spec_series_options(*self),
    {
        match self {
            RecurringSeries::Minutely(s) => &s.series_options,
            RecurringSeries::Hourly(s) => &s.series_options,
            RecurringSeries::Daily(s) => &s.series_options,
            RecurringSeries::Weekly(s) => &s.series_options,
            RecurringSeries::MonthlyByDay(s) => &s.series_options,
            RecurringSeries::MonthlyByNthWeekday(s) => &s.series_options,
            RecurringSeries::AnnuallyByDay(s) => &s.series_options,
        }
    }

    /// Each occurrence's duration under this rule, in seconds.
    pub fn get_occurrence_duration_in_seconds(&self) -> (r: i64)
        ensures
            r as int == spec_series_options(*self)@.duration,
    {
        self.get_series_options().duration_in_seconds
    }

    /// Whether the cursor itself (or an instant derivable from it) is a
    /// valid occurrence moment for this rule.
    pub fn next_occurrence_candidate(&self, zone: &Zone, datetime_cursor: i64) -> (r: Option<i64>)
        requires
            spec_rule_wf(*self),
            cursor_in_range(datetime_cursor as int),
        ensures
            opt_ts(r) == spec_next_candidate(*self, zone.id(), datetime_cursor as int),
    {
        match self {
            RecurringSeries::Minutely(_) => Some(datetime_cursor),
            RecurringSeries::Hourly(_) => Some(datetime_cursor),
            RecurringSeries::Daily(s) => {
                let t = s.series_options.time_of_day;
                match zone.at_time_of_day(datetime_cursor, t.hour, t.minute, t.second) {
                    Some(p) => Some(p),
                    None => Some(datetime_cursor),
                }
            },
            RecurringSeries::Weekly(s) => {
                if zone.weekday(datetime_cursor) == s.weekday.number() {
                    Some(datetime_cursor)
                } else {
                    None
                }
            },
            RecurringSeries::MonthlyByDay(s) => {
                if zone.day_of_month(datetime_cursor) == s.day_number {
                    Some(datetime_cursor)
                } else {
                    None
                }
            },
            RecurringSeries::MonthlyByNthWeekday(s) => s.next_occurrence_candidate(
                zone,
                datetime_cursor,
            ),
            RecurringSeries::AnnuallyByDay(s) => {
                if zone.ordinal(datetime_cursor) == s.day_number {
                    Some(datetime_cursor)
                } else {
                    None
                }
            },
        }
    }

    /// Moves the cursor forward: never backward, always making progress.
    pub fn advance_datetime_cursor(&self, zone: &Zone, datetime_cursor: i64) -> (r: i64)
        requires
            spec_rule_wf(*self),
            cursor_in_range(datetime_cursor as int),
        ensures
            r as int == spec_advance(*self, zone.id(), datetime_cursor as int),
            datetime_cursor < r <= datetime_cursor + MAX_CURSOR_STEP,
    {
        match self {
            RecurringSeries::Minutely(_) => datetime_cursor + MINUTE_SECONDS,
            RecurringSeries::Hourly(_) => datetime_cursor + HOUR_SECONDS,
            RecurringSeries::Daily(_) => {
                match zone.add_days(datetime_cursor, 1) {
                    Some(a) => step_forward(datetime_cursor, a, DAY_SECONDS),
                    None => datetime_cursor + DAY_SECONDS,
                }
            },
            RecurringSeries::Weekly(s) => {
                let t = s.series_options.time_of_day;
                if zone.weekday(datetime_cursor) == s.weekday.number() {
                    let raw = advance_time_safely(zone, datetime_cursor, WEEK_SECONDS, &t);
                    step_forward(datetime_cursor, raw, WEEK_SECONDS)
                } else {
                    let raw = advance_time_safely(zone, datetime_cursor, DAY_SECONDS, &t);
                    step_forward(datetime_cursor, raw, DAY_SECONDS)
                }
            },
            RecurringSeries::MonthlyByDay(s) => s.advance_datetime_cursor(zone, datetime_cursor),
            RecurringSeries::MonthlyByNthWeekday(_) => beginning_of_next_month_from(
                zone,
                datetime_cursor,
            ),
            RecurringSeries::AnnuallyByDay(s) => s.advance_datetime_cursor(zone, datetime_cursor),
        }
    }
}

impl MonthlyByDay {
    /// One local calendar month forward re-pinned to the wall time when the
    /// cursor sits on the configured day, else a probing day.
    fn advance_datetime_cursor(&self, zone: &Zone, datetime_cursor: i64) -> (r: i64)
        requires
            self.series_options@.wf(),
            cursor_in_range(datetime_cursor as int),
        ensures
            r as int == spec_monthly_by_day_advance(*self, zone.id(), datetime_cursor as int),
            datetime_cursor < r <= datetime_cursor + MAX_CURSOR_STEP,
    {
        let t = self.series_options.time_of_day;
        if zone.day_of_month(datetime_cursor) == self.day_number {
            match zone.add_months(datetime_cursor, 1) {
                Some(a) => {
                    if -WRAPPER_TS_LIMIT <= a && a <= WRAPPER_TS_LIMIT {
                        match zone.at_time_of_day(a, t.hour, t.minute, t.second) {
                            Some(p) => step_forward(datetime_cursor, p, MONTH_STEP_SECONDS),
                            None => step_forward(datetime_cursor, a, MONTH_STEP_SECONDS),
                        }
                    } else {
                        step_forward(datetime_cursor, a, MONTH_STEP_SECONDS)
                    }
                },
                None => {
                    match utc_add_months_exec(datetime_cursor, 1) {
                        Some(u) => step_forward(datetime_cursor, u, MONTH_STEP_SECONDS),
                        None => datetime_cursor + MONTH_STEP_SECONDS,
                    }
                },
            }
        } else {
            let raw = advance_time_safely(zone, datetime_cursor, DAY_SECONDS, &t);
            step_forward(datetime_cursor, raw, DAY_SECONDS)
        }
    }
}

impl AnnuallyByDay {
    /// One year forward keeping the wall time when the cursor sits on the
    /// configured ordinal day, else a pinned jump toward it.
    fn advance_datetime_cursor(&self, zone: &Zone, datetime_cursor: i64) -> (r: i64)
        requires
            self.series_options@.wf(),
            1 <= self.day_number <= 366,
            cursor_in_range(datetime_cursor as int),
        ensures
            r as int == spec_advance(
                RecurringSeries::AnnuallyByDay(*self),
                zone.id(),
                datetime_cursor as int,
            ),
            datetime_cursor < r <= datetime_cursor + MAX_CURSOR_STEP,
    {
        let t = self.series_options.time_of_day;
        if zone.ordinal(datetime_cursor) == self.day_number {
            let y = zone.year(datetime_cursor) + 1;
            match zone.with_year(datetime_cursor, y) {
                Some(n) => {
                    if -WRAPPER_TS_LIMIT <= n && n <= WRAPPER_TS_LIMIT {
                        let pinned = set_datetime_cursor_safely(zone, n, &t);
                        step_forward(datetime_cursor, pinned, YEAR_STEP_SECONDS)
                    } else {
                        step_forward(datetime_cursor, n, YEAR_STEP_SECONDS)
                    }
                },
                None => {
                    match utc_with_year_exec(datetime_cursor + DAY_SECONDS, y) {
                        Some(u) => step_forward(datetime_cursor, u, YEAR_STEP_SECONDS),
                        None => datetime_cursor + YEAR_STEP_SECONDS,
                    }
                },
            }
        } else {
            let raw = match zone.with_ordinal(datetime_cursor, self.day_number) {
                Some(j) => j,
                None => datetime_cursor + DAY_SECONDS,
            };
            let pinned = if -WRAPPER_TS_LIMIT <= raw && raw <= WRAPPER_TS_LIMIT {
                set_datetime_cursor_safely(zone, raw, &t)
            } else {
                raw
            };
            if pinned > datetime_cursor && pinned <= datetime_cursor + MAX_CURSOR_STEP {
                pinned
            } else {
                let probe = advance_time_safely(zone, datetime_cursor, DAY_SECONDS, &t);
                step_forward(datetime_cursor, probe, DAY_SECONDS)
            }
        }
    }
}

/// The first instant of the month after the one holding `ts`, under the
/// forward guard.
fn beginning_of_next_month_from(zone: &Zone, ts: i64) -> (r: i64)
    requires
        cursor_in_range(ts as int),
    ensures
        r as int == spec_monthly_by_nth_weekday_advance(zone.id(), ts as int),
        ts < r <= ts + MAX_CURSOR_STEP,
{
    let raw = beginning_of_next_month_raw(zone, ts);
    step_forward(ts, raw, MONTH_STEP_SECONDS)
}

/// The raw first instant of the next month, mirrored by
/// [`spec_beginning_of_next_month_raw`].
fn beginning_of_next_month_raw(zone: &Zone, ts: i64) -> (r: i64)
    requires
        -(WRAPPER_TS_LIMIT as int) + 100_000_000 <= ts as int <= WRAPPER_TS_LIMIT as int
            - 100_000_000,
    ensures
        r as int == spec_beginning_of_next_month_raw(zone.id(), ts as int),
{
    if zone.month(ts) == 12 {
        let y = zone.year(ts) + 1;
        match zone.with_year(ts, y) {
            Some(a) => {
                if -WRAPPER_TS_LIMIT <= a && a <= WRAPPER_TS_LIMIT {
                    match zone.with_month(a, 1) {
                        Some(b) => {
                            if -WRAPPER_TS_LIMIT <= b && b <= WRAPPER_TS_LIMIT {
                                match zone.with_day(b, 1) {
                                    Some(c) => c,
                                    None => ts + MONTH_STEP_SECONDS,
                                }
                            } else {
                                ts + MONTH_STEP_SECONDS
                            }
                        },
                        None => ts + MONTH_STEP_SECONDS,
                    }
                } else {
                    ts + MONTH_STEP_SECONDS
                }
            },
            None => ts + MONTH_STEP_SECONDS,
        }
    } else {
        match zone.add_months(ts, 1) {
            Some(a) => {
                if -WRAPPER_TS_LIMIT <= a && a <= WRAPPER_TS_LIMIT {
                    match zone.with_day(a, 1) {
                        Some(b) => b,
                        None => ts + MONTH_STEP_SECONDS,
                    }
                } else {
                    ts + MONTH_STEP_SECONDS
                }
            },
            None => {
                match utc_add_months_exec(ts, 1) {
                    Some(u) => {
                        if -WRAPPER_TS_LIMIT <= u && u <= WRAPPER_TS_LIMIT {
                            match zone.with_day(u, 1) {
                                Some(b) => b,
                                None => ts + MONTH_STEP_SECONDS,
                            }
                        } else {
                            ts + MONTH_STEP_SECONDS
                        }
                    },
                    None => ts + MONTH_STEP_SECONDS,
                }
            },
        }
    }
}

impl MonthlyByNthWeekday {
    /// The instants of all days in the cursor's local month sharing this
    /// rule's weekday, each at the rule's wall time, ascending.
    pub fn identify_all_weekdays_in_month_of(&self, zone: &Zone, datetime_cursor: i64) -> (r: Vec<
        i64,
    >)
        requires
            self.series_options@.wf(),
            cursor_in_range(datetime_cursor as int),
        ensures
            seq_ts(r@) == spec_weekdays_in_month(*self, zone.id(), datetime_cursor as int),
    {
        let ghost zid = zone.id();
        let t = self.series_options.time_of_day;
        let som = start_of_month_from(zone, datetime_cursor, &t);
        let eom_raw = beginning_of_next_month_raw(zone, som);
        let eom = step_forward(som, eom_raw, MONTH_STEP_SECONDS);

        let wd = self.weekday.number();
        let ghost wdn = self.weekday.spec_number();
        let mut examined = som;
        // Move to the first day in the month with the requested weekday.
        loop
            invariant
                som <= examined,
                examined as int <= eom as int + MAX_CURSOR_STEP,
                cursor_in_range(datetime_cursor as int),
                som as int <= datetime_cursor + MAX_CURSOR_STEP,
                som as int >= datetime_cursor - MAX_CURSOR_STEP,
                eom as int <= som as int + MAX_CURSOR_STEP,
                t == self.series_options.time_of_day,
                t@.wf(),
                zid == zone.id(),
                wd as int == wdn,
                spec_weekday_seek(zid, wdn, t@, examined as int, eom as int)
                    == spec_weekday_seek(zid, wdn, t@, som as int, eom as int),
            ensures
                som <= examined,
                examined as int <= eom as int + MAX_CURSOR_STEP,
                eom as int <= som as int + MAX_CURSOR_STEP,
                examined as int == spec_weekday_seek(zid, wdn, t@, som as int, eom as int),
            decreases spec_window_fuel(examined as int, eom as int),
        {
            if examined >= eom {
                proof {
                    assert(spec_weekday_seek(zid, wdn, t@, examined as int, eom as int)
                        == examined as int);
                }
                break;
            }
            if zone.weekday(examined) == wd {
                proof {
                    assert(zone_weekday(zid, examined as int) == wdn);
                    assert(spec_weekday_seek(zid, wdn, t@, examined as int, eom as int)
                        == examined as int);
                }
                break;
            }
            let ghost ex0 = examined as int;
            let raw = advance_time_safely(zone, examined, DAY_SECONDS, &t);
            examined = step_forward(examined, raw, DAY_SECONDS);
            proof {
                assert(examined as int == spec_month_scan_step(zid, ex0, t@));
                assert(spec_weekday_seek(zid, wdn, t@, ex0, eom as int)
                    == spec_weekday_seek(zid, wdn, t@, examined as int, eom as int));
            }
        }
        // Collect the day and all remaining days with the same weekday.
        let mut weekdays_in_month: Vec<i64> = Vec::new();
        loop
            invariant
                som <= examined,
                examined as int <= eom as int + MAX_CURSOR_STEP,
                eom as int <= som as int + MAX_CURSOR_STEP,
                som as int <= datetime_cursor + MAX_CURSOR_STEP,
                som as int >= datetime_cursor - MAX_CURSOR_STEP,
                cursor_in_range(datetime_cursor as int),
                t == self.series_options.time_of_day,
                t@.wf(),
                zid == zone.id(),
                seq_ts(weekdays_in_month@) + spec_weekday_collect(
                    zid,
                    t@,
                    examined as int,
                    eom as int,
                ) == spec_weekday_collect(
                    zid,
                    t@,
                    spec_weekday_seek(zid, wdn, t@, som as int, eom as int),
                    eom as int,
                ),
            ensures
                seq_ts(weekdays_in_month@) == spec_weekday_collect(
                    zid,
                    t@,
                    spec_weekday_seek(zid, wdn, t@, som as int, eom as int),
                    eom as int,
                ),
            decreases spec_window_fuel(examined as int, eom as int),
        {
            if examined >= eom {
                break;
            }
            let ghost pre = seq_ts(weekdays_in_month@);
            let ghost ex0 = examined as int;
            weekdays_in_month.push(examined);
            let raw = advance_time_safely(zone, examined, WEEK_SECONDS, &t);
            examined = step_forward(examined, raw, WEEK_SECONDS);
            proof {
                assert(seq_ts(weekdays_in_month@) =~= pre.push(ex0));
                assert(pre.push(ex0) =~= pre + seq![ex0]);
                assert(examined as int == spec_month_week_step(zid, ex0, t@));
                assert(spec_weekday_collect(zid, t@, ex0, eom as int) == seq![ex0]
                    + spec_weekday_collect(zid, t@, examined as int, eom as int));
                assert((pre + seq![ex0]) + spec_weekday_collect(zid, t@, examined as int, eom as int)
                    =~= pre + (seq![ex0] + spec_weekday_collect(zid, t@, examined as int, eom as int)));
            }
        }
        weekdays_in_month
    }

    /// The signed nth-weekday candidate in the cursor's month, if the index
    /// resolves within the month's matching weekdays.
    pub fn next_occurrence_candidate(&self, zone: &Zone, datetime_cursor: i64) -> (r: Option<i64>)
        requires
            self.series_options@.wf(),
            -5 <= self.nth_weekday <= 5,
            cursor_in_range(datetime_cursor as int),
        ensures
            opt_ts(r) == spec_nth_weekday_candidate(*self, zone.id(), datetime_cursor as int),
    {
        let current = self.identify_all_weekdays_in_month_of(zone, datetime_cursor);
        proof {
            assert(seq_ts(current@).len() == current@.len());
        }
        match self.get_unsigned_nth_weekday_index_from_signed(current.len()) {
            Some(i) => {
                if i < current.len() {
                    Some(current[i])
                } else {
                    None
                }
            },
            None => None,
        }
    }
}

/// The first instant of the cursor's local month at the given wall time,
/// mirrored by [`spec_start_of_month`].
fn start_of_month_from(zone: &Zone, cursor: i64, t: &TimeOfDay) -> (r: i64)
    requires
        cursor_in_range(cursor as int),
        t@.wf(),
    ensures
        r as int == spec_start_of_month(zone.id(), cursor as int, t@),
        cursor - MAX_CURSOR_STEP <= r <= cursor + MAX_CURSOR_STEP,
{
    let raw = match zone.with_day(cursor, 1) {
        Some(f) => {
            if -WRAPPER_TS_LIMIT <= f && f <= WRAPPER_TS_LIMIT {
                match zone.at_time_of_day(f, t.hour, t.minute, t.second) {
                    Some(p) => p,
                    None => f,
                }
            } else {
                f
            }
        },
        None => cursor,
    };
    if cursor - MAX_CURSOR_STEP <= raw && raw <= cursor + MAX_CURSOR_STEP {
        raw
    } else {
        cursor
    }
}

} // verus!
