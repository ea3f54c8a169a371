use reprise::errors::ScheduleError;
use reprise::schedule::Schedule;
use reprise::series_options::SeriesOptions;
use reprise::time_of_day::TimeOfDay;

const JAN_1_2024: i64 = 1704067200; // 2024-01-01T00:00:00Z
const APR_1_2024: i64 = 1711929600; // 2024-04-01T00:00:00Z

fn options(hour: u32, minute: u32, duration: i64, interval: i64) -> SeriesOptions {
    SeriesOptions::new(
        TimeOfDay::new(hour, minute, 0).unwrap(),
        duration,
        interval,
        None,
        None,
        None,
    )
    .unwrap()
}

fn starts(occurrences: &[reprise::occurrence::Occurrence]) -> Vec<i64> {
    occurrences
        .iter()
        .map(|o| o.get_starts_at_unix_timestamp())
        .collect()
}

#[test]
fn schedule_rejects_unknown_zone() {
    assert_eq!(
        Schedule::new(0, 100, "Not/AZone").unwrap_err(),
        ScheduleError::UnrecognizedTimeZone
    );
    assert_eq!(
        Schedule::new(0, 100, "").unwrap_err(),
        ScheduleError::UnrecognizedTimeZone
    );
}

#[test]
fn schedule_reports_its_zone() {
    let s = Schedule::new(0, 100, "America/New_York").unwrap();
    assert_eq!(s.time_zone(), "America/New_York");
}

#[test]
fn registration_rejections_leave_the_schedule_unchanged() {
    let mut s = Schedule::new(JAN_1_2024, APR_1_2024, "UTC").unwrap();
    assert_eq!(
        s.repeat_weekly("noday", options(9, 0, 60, 1)).unwrap_err(),
        ScheduleError::UnknownWeekday
    );
    assert_eq!(
        s.repeat_monthly_by_day(32, options(9, 0, 60, 1)).unwrap_err(),
        ScheduleError::InvalidDayOfMonth
    );
    assert_eq!(
        s.repeat_monthly_by_day(0, options(9, 0, 60, 1)).unwrap_err(),
        ScheduleError::InvalidDayOfMonth
    );
    assert_eq!(
        s.repeat_monthly_by_nth_weekday("monday", 6, options(9, 0, 60, 1))
            .unwrap_err(),
        ScheduleError::InvalidNthWeekday
    );
    assert_eq!(
        s.repeat_monthly_by_nth_weekday("monday", -6, options(9, 0, 60, 1))
            .unwrap_err(),
        ScheduleError::InvalidNthWeekday
    );
    assert_eq!(
        s.repeat_annually_by_day(367, options(9, 0, 60, 1)).unwrap_err(),
        ScheduleError::InvalidDayOfYear
    );
    assert!(s.occurrences().is_empty());
}

#[test]
fn weekly_mondays_with_exclusion_scenario() {
    // Schedule [2024-01-01T00:00:00Z, 2024-04-01T00:00:00Z) in
    // America/New_York; weekly rule on Monday 09:00, duration 3600s;
    // exclusion 2024-02-05 09:00–10:00 local. One occurrence per Monday in
    // range except February 5, each at local 09:00, duration exactly 3600s,
    // unaffected by the March 10 DST shift.
    let mut s = Schedule::new(JAN_1_2024, APR_1_2024, "America/New_York").unwrap();
    s.repeat_weekly("monday", options(9, 0, 3600, 1)).unwrap();
    s.add_exclusion(1707141600, 1707145200);
    let occurrences = s.occurrences();
    assert_eq!(
        starts(&occurrences),
        vec![
            1704117600, 1704722400, 1705327200, 1705932000, 1706536800, 1707746400, 1708351200,
            1708956000, 1709560800, 1710162000, 1710766800, 1711371600,
        ]
    );
    for o in &occurrences {
        assert_eq!(
            o.get_ends_at_unix_timestamp() - o.get_starts_at_unix_timestamp(),
            3600
        );
    }
}

#[test]
fn batch_exclusions_suppress_overlapping_occurrences() {
    let mut s = Schedule::new(JAN_1_2024, JAN_1_2024 + 600, "UTC").unwrap();
    s.repeat_minutely(options(0, 0, 60, 1));
    s.add_exclusions(vec![
        (JAN_1_2024 + 90, JAN_1_2024 + 130),
        (JAN_1_2024 + 400, JAN_1_2024 + 430),
    ]);
    let kept = starts(&s.occurrences());
    // Minutes at +60 (ends at +120, past +90) and +120 overlap the first
    // exclusion; +360 (ends at +420) and +420 overlap the second.
    assert!(!kept.contains(&(JAN_1_2024 + 60)));
    assert!(!kept.contains(&(JAN_1_2024 + 120)));
    assert!(!kept.contains(&(JAN_1_2024 + 360)));
    assert!(!kept.contains(&(JAN_1_2024 + 420)));
    assert!(kept.contains(&(JAN_1_2024 + 180)));
    assert!(kept.contains(&(JAN_1_2024 + 300)));
    assert!(kept.contains(&(JAN_1_2024 + 480)));
}

#[test]
fn occurrences_are_sorted_across_rules() {
    let mut s = Schedule::new(JAN_1_2024, JAN_1_2024 + 7200, "UTC").unwrap();
    // Registered out of chronological order: the hourly rule fires at
    // 00:00 and 01:00, the minutely-with-offset rule in between.
    s.repeat_hourly(options(0, 0, 60, 1));
    s.repeat_minutely(options(0, 30, 60, 20));
    let list = starts(&s.occurrences());
    let mut sorted = list.clone();
    sorted.sort();
    assert_eq!(list, sorted);
    assert!(list.len() > 2);
}

#[test]
fn occurrences_twice_on_unmutated_schedule_are_identical() {
    let mut s = Schedule::new(JAN_1_2024, APR_1_2024, "America/New_York").unwrap();
    s.repeat_weekly("monday", options(9, 0, 3600, 1)).unwrap();
    s.repeat_monthly_by_day(15, options(6, 0, 1800, 1)).unwrap();
    s.add_exclusion(1707141600, 1707145200);
    let first = s.occurrences();
    let second = s.occurrences();
    assert_eq!(first, second);
}

#[test]
fn contained_within_interval_bounds_every_occurrence() {
    let mut s = Schedule::new(JAN_1_2024, APR_1_2024, "America/New_York").unwrap();
    s.repeat_weekly("monday", options(9, 0, 3600, 1)).unwrap();
    // One minute before Monday Jan 8 09:00 EST, so the first Monday lies
    // strictly inside the generation window.
    let lo = 1704722340;
    let hi = 1706536800 + 3600; // Monday Jan 29 10:00 EST
    let within = s.occurrences_contained_within_interval(lo, hi);
    assert_eq!(
        starts(&within),
        vec![1704722400, 1705327200, 1705932000, 1706536800]
    );
    for o in &within {
        assert!(lo <= o.get_starts_at_unix_timestamp());
        assert!(o.get_ends_at_unix_timestamp() <= hi);
    }
    // One second less, and the last occurrence no longer fits.
    let within_shorter = s.occurrences_contained_within_interval(lo, hi - 1);
    assert_eq!(
        starts(&within_shorter),
        vec![1704722400, 1705327200, 1705932000]
    );
}

#[test]
fn overlapping_interval_finds_occurrence_started_before_window() {
    // A single hourly rule of duration 7200s: the query window
    // [T+7200, T+10800) must include the occurrence starting at T+3600,
    // which began before the window but still overlaps it.
    let t = JAN_1_2024;
    let mut s = Schedule::new(t, t + 6 * 3600, "UTC").unwrap();
    s.repeat_hourly(options(0, 0, 7200, 1));
    let overlapping = s.occurrences_overlapping_with_interval(t + 7200, t + 10800);
    assert_eq!(starts(&overlapping), vec![t + 3600, t + 7200]);
    for o in &overlapping {
        assert!(o.get_starts_at_unix_timestamp() < t + 10800);
        assert!(t + 7200 < o.get_ends_at_unix_timestamp());
    }
}

#[test]
fn queries_respect_exclusions_too() {
    let t = JAN_1_2024;
    let mut s = Schedule::new(t, t + 6 * 3600, "UTC").unwrap();
    s.repeat_hourly(options(0, 0, 7200, 1));
    s.add_exclusion(t + 3600, t + 3660);
    let overlapping = s.occurrences_overlapping_with_interval(t + 7200, t + 10800);
    assert_eq!(starts(&overlapping), vec![t + 7200]);
}

#[test]
fn longest_duration_drives_window_widening() {
    let t = JAN_1_2024;
    let mut s = Schedule::new(t, t + 24 * 3600, "UTC").unwrap();
    assert!(s.longest_occurrence_duration_in_seconds().is_none());
    s.repeat_hourly(options(0, 0, 1800, 1));
    s.repeat_daily(options(0, 0, 7200, 1));
    assert_eq!(s.longest_occurrence_duration_in_seconds(), Some(7200));
}
