//! Zone-safe clock arithmetic: the gap- and ambiguity-tolerant operations
//! every recurrence rule builds on.
//!
//! Both operations are total. Where a wall time is ambiguous (it occurs twice
//! during a fall-back transition) the later instant wins; where it falls in a
//! spring-forward gap, a documented heuristic escapes the gap. No calendar or
//! zone computation here can fail the caller.

use vstd::prelude::*;
use crate::time_of_day::{TimeOfDay, TimeOfDayModel};
use crate::zone::{Zone, zone_pin, ts_in_wrapper_range, WRAPPER_TS_LIMIT};

verus! {

/// Upper bound on a single cursor step of any rule: about 463 days, far
/// above the largest genuine step (one year plus the pin slack around a
/// transition).
pub const MAX_CURSOR_STEP: i64 = 40_000_000;

/// The value of [`set_datetime_cursor_safely`]: the wall time pinned onto
/// the local date of `ts`; if that falls in a gap, the wall time shifted
/// forward one hour (wrapping at midnight) and pinned again; if even that
/// fails, `ts` unchanged. The last arm is unreachable for real zone tables,
/// whose gaps shift the clock by at most an hour; it makes the operation
/// total whatever the tables hold.
pub open spec fn spec_set_datetime_cursor_safely(zone: Seq<char>, ts: int, t: TimeOfDayModel) -> int {
    match zone_pin(zone, ts, t.hour, t.minute, t.second) {
        Some(r) => r,
        None => match zone_pin(zone, ts, (t.hour + 1) % 24, t.minute, t.second) {
            Some(r) => r,
            None => ts,
        },
    }
}

/// The value of [`advance_time_safely`]: `delta` seconds added to the
/// instant, then the wall time re-pinned on the resulting local date. If the
/// pin lands in a gap, the wall time is pinned on the original date instead
/// and `delta` added to that instant; if that pin fails too (or yields an
/// instant too large to step from), the plain instant sum stands.
pub open spec fn spec_advance_time_safely(
    zone: Seq<char>,
    ts: int,
    delta: int,
    t: TimeOfDayModel,
) -> int {
    match zone_pin(zone, ts + delta, t.hour, t.minute, t.second) {
        Some(r) => r,
        None => match zone_pin(zone, ts, t.hour, t.minute, t.second) {
            Some(u) => if ts_in_wrapper_range(u) {
                u + delta
            } else {
                ts + delta
            },
            None => ts + delta,
        },
    }
}

/// Pins a wall time onto the local date of a zoned cursor; if the result
/// falls in a spring-forward gap, shifts the wall time forward by exactly
/// one hour and retries. A documented heuristic, not a general solution —
/// sufficient for standard one-hour transitions.
pub fn set_datetime_cursor_safely(zone: &Zone, ts: i64, t: &TimeOfDay) -> (r: i64)
    requires
        ts_in_wrapper_range(ts as int),
        t@.wf(),
    ensures
        r as int == spec_set_datetime_cursor_safely(zone.id(), ts as int, t@),
{
    match zone.at_time_of_day(ts, t.hour, t.minute, t.second) {
        Some(r) => r,
        None => {
            match zone.at_time_of_day(ts, (t.hour + 1) % 24, t.minute, t.second) {
                Some(r) => r,
                None => ts,
            }
        },
    }
}

/// Adds a signed duration to the zoned cursor, then re-pins the wall time,
/// resolving an ambiguous wall time to the later instant. If pinning lands
/// in a spring-forward gap, falls back to pinning on the original date and
/// adding the duration to that instant in plain seconds.
pub fn advance_time_safely(zone: &Zone, ts: i64, delta: i64, t: &TimeOfDay) -> (r: i64)
    requires
        0 < delta <= 604_800,
        ts_in_wrapper_range(ts as int),
        ts_in_wrapper_range(ts as int + delta as int),
        t@.wf(),
    ensures
        r as int == spec_advance_time_safely(zone.id(), ts as int, delta as int, t@),
{
    match zone.at_time_of_day(ts + delta, t.hour, t.minute, t.second) {
        Some(r) => r,
        None => {
            match zone.at_time_of_day(ts, t.hour, t.minute, t.second) {
                Some(u) => {
                    if -WRAPPER_TS_LIMIT <= u && u <= WRAPPER_TS_LIMIT {
                        u + delta
                    } else {
                        ts + delta
                    }
                },
                None => ts + delta,
            }
        },
    }
}

/// The value of [`step_forward`]: `raw` when it is a genuine forward step
/// from `cursor`, else the nominal step. Calendar steps near zone
/// transitions always move forward in practice; the guard makes progress
/// unconditional, so every expansion terminates whatever the zone tables
/// hold.
pub open spec fn spec_step_forward(cursor: int, raw: int, nominal: int) -> int {
    if cursor < raw <= cursor + MAX_CURSOR_STEP {
        raw
    } else {
        cursor + nominal
    }
}

/// Accepts a proposed new cursor when it moves forward by no more than
/// [`MAX_CURSOR_STEP`]; otherwise steps by the rule's nominal stride.
pub fn step_forward(cursor: i64, raw: i64, nominal: i64) -> (r: i64)
    requires
        1 <= nominal <= MAX_CURSOR_STEP,
        ts_in_wrapper_range(cursor as int),
    ensures
        r as int == spec_step_forward(cursor as int, raw as int, nominal as int),
        cursor < r <= cursor + MAX_CURSOR_STEP,
{
    if raw > cursor && raw <= cursor + MAX_CURSOR_STEP {
        raw
    } else {
        cursor + nominal
    }
}

} // verus!
