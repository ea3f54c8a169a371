use reprise::errors::ScheduleError;
use reprise::exclusion::Exclusion;
use reprise::interval::Interval;
use reprise::occurrence::Occurrence;
use reprise::series_options::SeriesOptions;
use reprise::sorted_exclusions::SortedExclusions;
use reprise::time_of_day::TimeOfDay;
use reprise::weekday::Weekday;

fn occurrence(start: i64, end: i64) -> Occurrence {
    Occurrence::new(start, end, None)
}

#[test]
fn time_of_day_accepts_wall_clock_ranges() {
    let t = TimeOfDay::new(9, 30, 0).unwrap();
    assert_eq!(t.hour, 9);
    assert_eq!(t.minute, 30);
    assert_eq!(t.second, 0);
    // A leap second is tolerated on input.
    assert!(TimeOfDay::new(23, 59, 60).is_ok());
}

#[test]
fn time_of_day_rejects_out_of_range_fields() {
    assert_eq!(TimeOfDay::new(24, 0, 0), Err(ScheduleError::InvalidTimeOfDay));
    assert_eq!(TimeOfDay::new(0, 60, 0), Err(ScheduleError::InvalidTimeOfDay));
    assert_eq!(TimeOfDay::new(0, 0, 61), Err(ScheduleError::InvalidTimeOfDay));
}

#[test]
fn series_options_validation() {
    let t = TimeOfDay::new(0, 0, 0).unwrap();
    assert!(SeriesOptions::new(t, 3600, 1, None, None, None).is_ok());
    assert_eq!(
        SeriesOptions::new(t, -1, 1, None, None, None).unwrap_err(),
        ScheduleError::InvalidDuration
    );
    assert_eq!(
        SeriesOptions::new(t, 0, 0, None, None, None).unwrap_err(),
        ScheduleError::InvalidInterval
    );
    assert_eq!(
        SeriesOptions::new(t, 0, 1, Some(2_000_000_000_000), None, None).unwrap_err(),
        ScheduleError::BookendOutOfRange
    );
    assert_eq!(
        SeriesOptions::new(t, 0, 1, None, Some(-2_000_000_000_000), None).unwrap_err(),
        ScheduleError::BookendOutOfRange
    );
}

#[test]
fn weekday_tokens_parse() {
    assert_eq!(Weekday::from_token("monday").unwrap(), Weekday::Monday);
    assert_eq!(Weekday::from_token("sunday").unwrap(), Weekday::Sunday);
    assert_eq!(Weekday::from_token("wednesday").unwrap().number(), 2);
    assert_eq!(
        Weekday::from_token("funday").unwrap_err(),
        ScheduleError::UnknownWeekday
    );
    assert_eq!(
        Weekday::from_token("Monday").unwrap_err(),
        ScheduleError::UnknownWeekday
    );
}

#[test]
fn occurrence_accessors() {
    let o = Occurrence::new(100, 160, Some("standup".to_string()));
    assert_eq!(o.get_starts_at_unix_timestamp(), 100);
    assert_eq!(o.get_ends_at_unix_timestamp(), 160);
    assert_eq!(o.label(), Some("standup".to_string()));
    let rendered = o.inspect();
    assert!(rendered.contains("standup"));
}

#[test]
fn exclusion_overlap_is_half_open() {
    let e = Exclusion::new(100, 200);
    assert_eq!(e.get_starts_at_unix_timestamp(), 100);
    assert_eq!(e.get_ends_at_unix_timestamp(), 200);
    assert!(e.overlaps_with(&occurrence(150, 250)));
    assert!(e.overlaps_with(&occurrence(50, 101)));
    // Touching endpoints do not overlap.
    assert!(!e.overlaps_with(&occurrence(200, 300)));
    assert!(!e.overlaps_with(&occurrence(0, 100)));
}

#[test]
fn interval_contains_and_overlaps() {
    let i = Interval::new(100, 200);
    assert_eq!(i.starts_at(), 100);
    assert_eq!(i.ends_at(), 200);
    assert!(i.contains(&occurrence(100, 200)));
    assert!(i.contains(&occurrence(120, 180)));
    assert!(!i.contains(&occurrence(99, 150)));
    assert!(!i.contains(&occurrence(150, 201)));
    assert!(i.overlaps_with(&occurrence(50, 101)));
    assert!(i.overlaps_with(&occurrence(199, 300)));
    assert!(!i.overlaps_with(&occurrence(200, 300)));
}

#[test]
fn sorted_exclusions_answer_overlap_queries() {
    let mut set = SortedExclusions::new();
    set.add_exclusion(Exclusion::new(500, 600));
    set.add_exclusion(Exclusion::new(100, 200));
    let mut batch = vec![Exclusion::new(300, 400), Exclusion::new(0, 50)];
    set.add_exclusions(&mut batch);
    assert!(batch.is_empty());
    assert!(set.is_occurrence_excluded(&occurrence(150, 160)));
    assert!(set.is_occurrence_excluded(&occurrence(10, 20)));
    assert!(set.is_occurrence_excluded(&occurrence(390, 510)));
    assert!(!set.is_occurrence_excluded(&occurrence(200, 300)));
    assert!(!set.is_occurrence_excluded(&occurrence(600, 700)));
    set.reorder_exclusions();
    assert!(set.is_occurrence_excluded(&occurrence(599, 601)));
}
