use reprise::schedule::Schedule;
use reprise::series_options::SeriesOptions;
use reprise::time_of_day::TimeOfDay;

const JAN_1_2024: i64 = 1704067200;
const APR_1_2024: i64 = 1711929600;

fn options(hour: u32, minute: u32, duration: i64, interval: i64) -> SeriesOptions {
    SeriesOptions::new(
        TimeOfDay::new(hour, minute, 0).unwrap(),
        duration,
        interval,
        None,
        None,
        None,
    )
    .unwrap()
}

fn starts(schedule: &Schedule) -> Vec<i64> {
    schedule
        .occurrences()
        .iter()
        .map(|o| o.get_starts_at_unix_timestamp())
        .collect()
}

#[test]
fn minutely_interval_keeps_every_third() {
    // Nine minutely candidates fall strictly inside the window (the one at
    // the start bookend itself is not emitted); interval 3 keeps indices
    // 0, 3 and 6 of that list.
    let mut s = Schedule::new(JAN_1_2024, JAN_1_2024 + 600, "UTC").unwrap();
    s.repeat_minutely(options(0, 0, 60, 3));
    assert_eq!(
        starts(&s),
        vec![
            JAN_1_2024 + 60,
            JAN_1_2024 + 240,
            JAN_1_2024 + 420,
        ]
    );
}

#[test]
fn minutely_without_interval_keeps_all() {
    // Every candidate strictly inside the window is kept; the one exactly
    // at the start bookend is not.
    let mut s = Schedule::new(JAN_1_2024, JAN_1_2024 + 300, "UTC").unwrap();
    s.repeat_minutely(options(0, 0, 60, 1));
    assert_eq!(
        starts(&s),
        vec![
            JAN_1_2024 + 60,
            JAN_1_2024 + 120,
            JAN_1_2024 + 180,
            JAN_1_2024 + 240,
        ]
    );
}

#[test]
fn hourly_occurrences_carry_duration_and_label() {
    let mut s = Schedule::new(JAN_1_2024, JAN_1_2024 + 3 * 3600, "UTC").unwrap();
    let opts = SeriesOptions::new(
        TimeOfDay::new(0, 0, 0).unwrap(),
        7200,
        1,
        None,
        None,
        Some("standup".to_string()),
    )
    .unwrap();
    s.repeat_hourly(opts);
    let occurrences = s.occurrences();
    assert_eq!(occurrences.len(), 2);
    for (k, o) in occurrences.iter().enumerate() {
        assert_eq!(o.get_starts_at_unix_timestamp(), JAN_1_2024 + (k as i64 + 1) * 3600);
        assert_eq!(
            o.get_ends_at_unix_timestamp(),
            o.get_starts_at_unix_timestamp() + 7200
        );
        assert_eq!(o.label(), Some("standup".to_string()));
    }
}

#[test]
fn daily_spring_forward_gap_still_yields_one_occurrence() {
    // America/New_York springs forward on 2024-03-10: local 02:00–03:00 does
    // not exist. A daily rule at 02:30 still yields exactly one occurrence
    // that date, shifted out of the gap, with no missing day.
    let mar_9 = 1709942400; // 2024-03-09T00:00:00Z
    let mar_12 = 1710201600; // 2024-03-12T00:00:00Z
    let mut s = Schedule::new(mar_9, mar_12, "America/New_York").unwrap();
    s.repeat_daily(options(2, 30, 600, 1));
    assert_eq!(
        starts(&s),
        vec![
            1709969400, // 2024-03-09 02:30 EST
            1710055800, // 2024-03-10 03:30 EDT: the gapped 02:30, resolved forward
            1710138600, // 2024-03-11 02:30 EDT
        ]
    );
}

#[test]
fn weekly_monday_mornings_across_dst_shift() {
    // Every Monday 09:00 in America/New_York from January through March
    // 2024: one occurrence per Monday, each at local 09:00, unaffected by
    // the March 10 DST shift.
    let mut s = Schedule::new(JAN_1_2024, APR_1_2024, "America/New_York").unwrap();
    s.repeat_weekly("monday", options(9, 0, 3600, 1)).unwrap();
    assert_eq!(
        starts(&s),
        vec![
            1704117600, 1704722400, 1705327200, 1705932000, 1706536800, 1707141600, 1707746400,
            1708351200, 1708956000, 1709560800, 1710162000, 1710766800, 1711371600,
        ]
    );
}

#[test]
fn monthly_by_day_hits_the_fifteenth() {
    let mut s = Schedule::new(JAN_1_2024, APR_1_2024, "UTC").unwrap();
    s.repeat_monthly_by_day(15, options(6, 0, 3600, 1)).unwrap();
    assert_eq!(starts(&s), vec![1705298400, 1707976800, 1710482400]);
}

#[test]
fn monthly_by_nth_weekday_negative_one_selects_last() {
    // March 2024 holds five Fridays, April four: -1 selects the last one of
    // each month either way.
    let mar_1 = 1709251200; // 2024-03-01T00:00:00Z
    let may_1 = 1714521600; // 2024-05-01T00:00:00Z
    let mut s = Schedule::new(mar_1, may_1, "UTC").unwrap();
    s.repeat_monthly_by_nth_weekday("friday", -1, options(12, 0, 3600, 1))
        .unwrap();
    assert_eq!(
        starts(&s),
        vec![
            1711713600, // Friday 2024-03-29, the fifth Friday
            1714132800, // Friday 2024-04-26, the fourth Friday
        ]
    );
}

#[test]
fn monthly_by_nth_weekday_rolls_over_december() {
    // First Monday of December 2024 and of January 2025: the advance to the
    // next month crosses a year boundary.
    let dec_1 = 1733011200; // 2024-12-01T00:00:00Z
    let feb_1 = 1738368000; // 2025-02-01T00:00:00Z
    let mut s = Schedule::new(dec_1, feb_1, "UTC").unwrap();
    s.repeat_monthly_by_nth_weekday("monday", 0, options(9, 0, 3600, 1))
        .unwrap();
    assert_eq!(starts(&s), vec![1733130000, 1736154000]);
}

#[test]
fn monthly_by_nth_weekday_out_of_range_index_yields_nothing() {
    // No month holds a sixth Friday at index 5.
    let mar_1 = 1709251200;
    let may_1 = 1714521600;
    let mut s = Schedule::new(mar_1, may_1, "UTC").unwrap();
    s.repeat_monthly_by_nth_weekday("friday", 5, options(12, 0, 3600, 1))
        .unwrap();
    assert_eq!(starts(&s), Vec::<i64>::new());
}

#[test]
fn annually_by_day_crosses_a_leap_year() {
    // Ordinal day 60 is February 29 in 2024 and March 1 in 2025: advancing
    // a year off a leap day takes the nudged escape and still lands on the
    // requested ordinal.
    let jan_1_2026 = 1767225600;
    let mut s = Schedule::new(JAN_1_2024, jan_1_2026, "UTC").unwrap();
    s.repeat_annually_by_day(60, options(8, 0, 3600, 1)).unwrap();
    assert_eq!(starts(&s), vec![1709193600, 1740816000]);
}

#[test]
fn private_bookends_override_the_schedule_window() {
    let mut s = Schedule::new(JAN_1_2024, JAN_1_2024 + 3600, "UTC").unwrap();
    let opts = SeriesOptions::new(
        TimeOfDay::new(0, 0, 0).unwrap(),
        60,
        1,
        Some(JAN_1_2024 + 120),
        Some(JAN_1_2024 + 300),
        None,
    )
    .unwrap();
    s.repeat_minutely(opts);
    // The candidate at the private start bookend itself is not emitted.
    assert_eq!(
        starts(&s),
        vec![JAN_1_2024 + 180, JAN_1_2024 + 240]
    );
}

#[test]
fn monthly_by_day_skips_months_without_the_day() {
    // Day 31 exists in January and March but not in February: February is
    // passed through day by day and contributes nothing.
    let mut s = Schedule::new(JAN_1_2024, 1714521600, "UTC").unwrap();
    s.repeat_monthly_by_day(31, options(10, 0, 3600, 1)).unwrap();
    assert_eq!(starts(&s), vec![1706695200, 1711879200]);
}

#[test]
fn leap_second_wall_time_is_tolerated() {
    // A wall time with second 60 cannot be pinned onto any date; the daily
    // rule then falls back to its raw cursor and still yields one
    // occurrence per day, starting from the window start.
    let mut s = Schedule::new(JAN_1_2024, JAN_1_2024 + 3 * 86400, "UTC").unwrap();
    let opts = SeriesOptions::new(
        TimeOfDay::new(0, 0, 60).unwrap(),
        600,
        1,
        None,
        None,
        None,
    )
    .unwrap();
    s.repeat_daily(opts);
    // The first cursor coincides with the start bookend and is not emitted.
    assert_eq!(
        starts(&s),
        vec![JAN_1_2024 + 86400, JAN_1_2024 + 172800]
    );
}
