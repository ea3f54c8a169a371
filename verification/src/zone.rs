//! The boundary to the calendar and time-zone library.
//!
//! The engine works on plain unix timestamps (`i64`). Every zone-dependent
//! fact it reads — the local weekday of an instant, the instant at which a
//! wall time falls on a local date, a local calendar step — is obtained here,
//! from `chrono` and `chrono-tz`, behind a small trusted wrapper.
//!
//! Each wrapper's result is named by an uninterpreted spec function over the
//! zone's IANA name and plain integers. The zone database is compiled into
//! `chrono-tz`, so each of these results is a function of the wrapper's
//! arguments alone, which is what naming it claims. Nothing here states what
//! a name evaluates to on given values; the verified engine is proved for
//! every valuation of the names.

use vstd::prelude::*;

verus! {

/// Magnitude bound on every timestamp handed to a wrapper. `chrono` covers
/// years up to about ±262,000 from the epoch, roughly ±8.2e12 seconds;
/// 5e12 seconds (about ±158,000 years) stays comfortably inside, so
/// `DateTime::from_timestamp(ts, 0)` succeeds for every admitted `ts`.
pub const WRAPPER_TS_LIMIT: i64 = 5_000_000_000_000;

/// Magnitude bound on schedule and interval bookends, private rule bookends,
/// and durations: about ±31,000 years. Window widening and cursor stepping
/// then stay far below [`WRAPPER_TS_LIMIT`] and never overflow `i64`.
pub const BOOKEND_TS_LIMIT: i64 = 1_000_000_000_000;

/// Whether a timestamp may be handed to a wrapper.
pub open spec fn ts_in_wrapper_range(ts: int) -> bool {
    -(WRAPPER_TS_LIMIT as int) <= ts <= WRAPPER_TS_LIMIT as int
}

/// A sequence of timestamps as a mathematical sequence of integers.
pub open spec fn seq_ts(s: Seq<i64>) -> Seq<int> {
    s.map_values(|v: i64| v as int)
}

/// `Option<i64>` as a mathematical `Option<int>`, for stating wrapper results.
pub open spec fn opt_ts(o: Option<i64>) -> Option<int> {
    match o {
        Some(v) => Some(v as int),
        None => None,
    }
}

/// Whether the zone database recognizes this IANA zone name.
pub uninterp spec fn zone_name_recognized(name: Seq<char>) -> bool;

/// The instant at which wall time `hour:minute:second` falls on the local
/// date of `ts`, under the later mapping when the wall time is ambiguous;
/// `None` when the wall time does not exist that date (a spring-forward gap)
/// or the clock fields are out of range.
pub uninterp spec fn zone_pin(zone: Seq<char>, ts: int, hour: int, minute: int, second: int) -> Option<int>;

/// The local weekday of `ts`, counted 0 (Monday) through 6 (Sunday).
pub uninterp spec fn zone_weekday(zone: Seq<char>, ts: int) -> int;

/// The local day of month of `ts`, 1-based.
pub uninterp spec fn zone_day(zone: Seq<char>, ts: int) -> int;

/// The local month of `ts`, 1-based.
pub uninterp spec fn zone_month(zone: Seq<char>, ts: int) -> int;

/// The local year of `ts`.
pub uninterp spec fn zone_year(zone: Seq<char>, ts: int) -> int;

/// The local ordinal day of year of `ts`, 1-based.
pub uninterp spec fn zone_ordinal(zone: Seq<char>, ts: int) -> int;

/// The instant `n` local calendar days after `ts`, keeping the wall time;
/// `None` when the result is in a gap, ambiguous, or out of range.
pub uninterp spec fn zone_add_days(zone: Seq<char>, ts: int, n: int) -> Option<int>;

/// The instant `n` local calendar months after `ts`, keeping the wall time
/// and clamping the day to the target month's length; `None` when the result
/// is in a gap, ambiguous, or out of range.
pub uninterp spec fn zone_add_months(zone: Seq<char>, ts: int, n: int) -> Option<int>;

/// The instant with the local day of month of `ts` replaced by `d`; `None`
/// when the date is invalid or the result is in a gap, ambiguous, or out of
/// range.
pub uninterp spec fn zone_with_day(zone: Seq<char>, ts: int, d: int) -> Option<int>;

/// The instant with the local month of `ts` replaced by `m`, same failure
/// cases as [`zone_with_day`].
pub uninterp spec fn zone_with_month(zone: Seq<char>, ts: int, m: int) -> Option<int>;

/// The instant with the local year of `ts` replaced by `y`, same failure
/// cases as [`zone_with_day`].
pub uninterp spec fn zone_with_year(zone: Seq<char>, ts: int, y: int) -> Option<int>;

/// The instant with the local ordinal day of year of `ts` replaced by `o`,
/// same failure cases as [`zone_with_day`].
pub uninterp spec fn zone_with_ordinal(zone: Seq<char>, ts: int, o: int) -> Option<int>;

/// The instant `n` UTC calendar months after `ts`, day clamped; `None` only
/// out of range.
pub uninterp spec fn utc_add_months(ts: int, n: int) -> Option<int>;

/// The instant with the UTC year of `ts` replaced by `y`; `None` when the
/// resulting UTC date does not exist (February 29 of a non-leap year) or is
/// out of range.
pub uninterp spec fn utc_with_year(ts: int, y: int) -> Option<int>;

#[verifier::external_type_specification]
#[verifier::external_body]
pub struct ExTz(chrono_tz::Tz);

/// A validated time zone: the parsed `chrono_tz::Tz` together with the IANA
/// name it was parsed from, which identifies the zone in every contract.
///
/// The fields are private: every `Zone` comes from [`Zone::from_name`], so
/// the parsed value always belongs to the recorded name.
#[derive(Debug)]
pub struct Zone {
    tz: chrono_tz::Tz,
    name: String,
}

impl Zone {
    /// The IANA name identifying this zone in contracts.
    pub closed spec fn id(&self) -> Seq<char> {
        self.name@
    }

    /// Relies on `chrono_tz::Tz::from_str`: a lookup of the name in the
    /// compiled-in zone table.
    #[verifier::external_body]
    pub fn from_name(name: &str) -> (r: Option<Zone>)
        ensures
            r is Some <==> zone_name_recognized(name@),
            r matches Some(z) ==> z.id() == name@,
    {
        match name.parse::<chrono_tz::Tz>() {
            Ok(tz) => Some(Zone { tz, name: name.to_string() }),
            Err(_) => None,
        }
    }

    /// The IANA name this zone was built from.
    pub fn name(&self) -> (r: &str)
        ensures
            r@ == self.id(),
    {
        self.name.as_str()
    }

    /// Relies on `chrono::DateTime::with_time` and `LocalResult::latest`:
    /// the wall time pinned onto the local date of `ts`, biased to the later
    /// mapping when ambiguous, `None` in a gap or for out-of-range clock
    /// fields.
    #[verifier::external_body]
    pub fn at_time_of_day(&self, ts: i64, hour: u32, minute: u32, second: u32) -> (r: Option<i64>)
        requires
            ts_in_wrapper_range(ts as int),
        ensures
            opt_ts(r) == zone_pin(self.id(), ts as int, hour as int, minute as int, second as int),
    {
        let cursor = chrono::DateTime::from_timestamp(ts, 0).unwrap().with_timezone(&self.tz);
        match chrono::NaiveTime::from_hms_opt(hour, minute, second) {
            Some(t) => cursor.with_time(t).latest().map(|d| d.timestamp()),
            None => None,
        }
    }

    /// Relies on `chrono::Datelike::weekday` and
    /// `Weekday::num_days_from_monday`: the local weekday of `ts`, 0 for
    /// Monday through 6 for Sunday.
    #[verifier::external_body]
    pub fn weekday(&self, ts: i64) -> (r: u32)
        requires
            ts_in_wrapper_range(ts as int),
        ensures
            r as int == zone_weekday(self.id(), ts as int),
            r < 7,
    {
        let cursor = chrono::DateTime::from_timestamp(ts, 0).unwrap().with_timezone(&self.tz);
        chrono::Datelike::weekday(&cursor).num_days_from_monday()
    }

    /// Relies on `chrono::Datelike::day`: the local day of month, 1..=31.
    #[verifier::external_body]
    pub fn day_of_month(&self, ts: i64) -> (r: u32)
        requires
            ts_in_wrapper_range(ts as int),
        ensures
            r as int == zone_day(self.id(), ts as int),
            1 <= r <= 31,
    {
        let cursor = chrono::DateTime::from_timestamp(ts, 0).unwrap().with_timezone(&self.tz);
        chrono::Datelike::day(&cursor)
    }

    /// Relies on `chrono::Datelike::month`: the local month, 1..=12.
    #[verifier::external_body]
    pub fn month(&self, ts: i64) -> (r: u32)
        requires
            ts_in_wrapper_range(ts as int),
        ensures
            r as int == zone_month(self.id(), ts as int),
            1 <= r <= 12,
    {
        let cursor = chrono::DateTime::from_timestamp(ts, 0).unwrap().with_timezone(&self.tz);
        chrono::Datelike::month(&cursor)
    }

    /// Relies on `chrono::Datelike::year`: the local year. `chrono` dates
    /// cover years of magnitude below 262,145.
    #[verifier::external_body]
    pub fn year(&self, ts: i64) -> (r: i32)
        requires
            ts_in_wrapper_range(ts as int),
        ensures
            r as int == zone_year(self.id(), ts as int),
            -262_145 <= r <= 262_144,
    {
        let cursor = chrono::DateTime::from_timestamp(ts, 0).unwrap().with_timezone(&self.tz);
        chrono::Datelike::year(&cursor)
    }

    /// Relies on `chrono::Datelike::ordinal`: the local day of year,
    /// 1..=366.
    #[verifier::external_body]
    pub fn ordinal(&self, ts: i64) -> (r: u32)
        requires
            ts_in_wrapper_range(ts as int),
        ensures
            r as int == zone_ordinal(self.id(), ts as int),
            1 <= r <= 366,
    {
        let cursor = chrono::DateTime::from_timestamp(ts, 0).unwrap().with_timezone(&self.tz);
        chrono::Datelike::ordinal(&cursor)
    }

    /// Relies on `chrono::DateTime::checked_add_days`: the local date moved
    /// `n` days forward, wall time kept, `None` in a gap, on ambiguity or
    /// out of range.
    #[verifier::external_body]
    pub fn add_days(&self, ts: i64, n: u64) -> (r: Option<i64>)
        requires
            ts_in_wrapper_range(ts as int),
        ensures
            opt_ts(r) == zone_add_days(self.id(), ts as int, n as int),
    {
        let cursor = chrono::DateTime::from_timestamp(ts, 0).unwrap().with_timezone(&self.tz);
        cursor.checked_add_days(chrono::Days::new(n)).map(|d| d.timestamp())
    }

    /// Relies on `chrono::DateTime::checked_add_months`: the local date
    /// moved `n` months forward, day clamped to the target month, wall time
    /// kept, `None` in a gap, on ambiguity or out of range.
    #[verifier::external_body]
    pub fn add_months(&self, ts: i64, n: u32) -> (r: Option<i64>)
        requires
            ts_in_wrapper_range(ts as int),
        ensures
            opt_ts(r) == zone_add_months(self.id(), ts as int, n as int),
    {
        let cursor = chrono::DateTime::from_timestamp(ts, 0).unwrap().with_timezone(&self.tz);
        cursor.checked_add_months(chrono::Months::new(n)).map(|d| d.timestamp())
    }

    /// Relies on `chrono::Datelike::with_day` on a zoned datetime: the local
    /// day of month replaced, `None` for an invalid date, a gap, ambiguity
    /// or out of range.
    #[verifier::external_body]
    pub fn with_day(&self, ts: i64, d: u32) -> (r: Option<i64>)
        requires
            ts_in_wrapper_range(ts as int),
        ensures
            opt_ts(r) == zone_with_day(self.id(), ts as int, d as int),
    {
        let cursor = chrono::DateTime::from_timestamp(ts, 0).unwrap().with_timezone(&self.tz);
        chrono::Datelike::with_day(&cursor, d).map(|x| x.timestamp())
    }

    /// Relies on `chrono::Datelike::with_month` on a zoned datetime, with
    /// the same failure cases as `with_day`.
    #[verifier::external_body]
    pub fn with_month(&self, ts: i64, m: u32) -> (r: Option<i64>)
        requires
            ts_in_wrapper_range(ts as int),
        ensures
            opt_ts(r) == zone_with_month(self.id(), ts as int, m as int),
    {
        let cursor = chrono::DateTime::from_timestamp(ts, 0).unwrap().with_timezone(&self.tz);
        chrono::Datelike::with_month(&cursor, m).map(|x| x.timestamp())
    }

    /// Relies on `chrono::Datelike::with_year` on a zoned datetime, with the
    /// same failure cases as `with_day`.
    #[verifier::external_body]
    pub fn with_year(&self, ts: i64, y: i32) -> (r: Option<i64>)
        requires
            ts_in_wrapper_range(ts as int),
        ensures
            opt_ts(r) == zone_with_year(self.id(), ts as int, y as int),
    {
        let cursor = chrono::DateTime::from_timestamp(ts, 0).unwrap().with_timezone(&self.tz);
        chrono::Datelike::with_year(&cursor, y).map(|x| x.timestamp())
    }

    /// Relies on `chrono::Datelike::with_ordinal` on a zoned datetime, with
    /// the same failure cases as `with_day`.
    #[verifier::external_body]
    pub fn with_ordinal(&self, ts: i64, o: u32) -> (r: Option<i64>)
        requires
            ts_in_wrapper_range(ts as int),
        ensures
            opt_ts(r) == zone_with_ordinal(self.id(), ts as int, o as int),
    {
        let cursor = chrono::DateTime::from_timestamp(ts, 0).unwrap().with_timezone(&self.tz);
        chrono::Datelike::with_ordinal(&cursor, o).map(|x| x.timestamp())
    }
}

/// Relies on `chrono::DateTime::<Utc>::checked_add_months`: a calendar month
/// step in the fixed UTC frame, day clamped, `None` only out of range.
#[verifier::external_body]
pub fn utc_add_months_exec(ts: i64, n: u32) -> (r: Option<i64>)
    requires
        ts_in_wrapper_range(ts as int),
    ensures
        opt_ts(r) == utc_add_months(ts as int, n as int),
{
    let cursor = chrono::DateTime::from_timestamp(ts, 0).unwrap();
    cursor.checked_add_months(chrono::Months::new(n)).map(|d| d.timestamp())
}

/// Relies on `chrono::Datelike::with_year` in the fixed UTC frame: `None`
/// when the resulting UTC date does not exist or is out of range.
#[verifier::external_body]
pub fn utc_with_year_exec(ts: i64, y: i32) -> (r: Option<i64>)
    requires
        ts_in_wrapper_range(ts as int),
    ensures
        opt_ts(r) == utc_with_year(ts as int, y as int),
{
    let cursor = chrono::DateTime::from_timestamp(ts, 0).unwrap();
    chrono::Datelike::with_year(&cursor, y).map(|d| d.timestamp())
}

} // verus!
