use chrono::{DateTime, FixedOffset, Utc};
use git_rewrite::time::{
    chrono_to_git2_time, git2_to_chrono_date, MAX_INSTANT, MIN_INSTANT, OFFSET_LIMIT,
};
use git_rewrite::{CommitDate, EngineTime, InvalidTimestamp};

fn round_trip(seconds: i64, offset_seconds: i32) -> CommitDate {
    let date = CommitDate::new(seconds, offset_seconds).expect("a valid date");
    let time = chrono_to_git2_time(&date);
    git2_to_chrono_date(&time).expect("a timestamp made from a date names a date")
}

#[test]
fn round_trip_utc() {
    let date = CommitDate::new(1_431_648_000, 0).unwrap();
    assert_eq!(round_trip(1_431_648_000, 0), date);
    assert_eq!(date.timestamp(), 1_431_648_000);
    assert_eq!(date.offset_seconds(), 0);
}

#[test]
fn round_trip_positive_offset() {
    let date = CommitDate::new(1_700_000_000, 9 * 3600).unwrap();
    let back = round_trip(1_700_000_000, 9 * 3600);
    assert_eq!(back, date);
    assert_eq!(back.offset_seconds(), 32_400);
}

#[test]
fn round_trip_negative_offset() {
    let date = CommitDate::new(1_700_000_000, -5 * 3600).unwrap();
    let back = round_trip(1_700_000_000, -5 * 3600);
    assert_eq!(back, date);
    assert_eq!(back.offset_seconds(), -18_000);
}

#[test]
fn round_trip_half_hour_offset() {
    let date = CommitDate::new(1_700_000_000, 5 * 3600 + 1800).unwrap();
    let back = round_trip(1_700_000_000, 5 * 3600 + 1800);
    assert_eq!(back, date);
    assert_eq!(back.offset_seconds(), 19_800);
}

#[test]
fn round_trip_before_the_epoch() {
    let date = CommitDate::new(-86_401, -12 * 3600).unwrap();
    assert_eq!(round_trip(-86_401, -12 * 3600), date);
}

#[test]
fn same_instant_in_two_zones_stays_apart() {
    let tokyo = round_trip(1_700_000_000, 9 * 3600);
    let lima = round_trip(1_700_000_000, -5 * 3600);
    assert_eq!(tokyo.timestamp(), lima.timestamp());
    assert_ne!(tokyo, lima);
    assert_ne!(tokyo.offset_seconds(), lima.offset_seconds());
}

#[test]
fn engine_time_has_instant_and_minutes() {
    let date = CommitDate::new(1_234_567_890, 19_800).unwrap();
    assert_eq!(
        chrono_to_git2_time(&date),
        EngineTime { seconds: 1_234_567_890, offset_minutes: 330 }
    );
    let west = CommitDate::new(-5, -18_000).unwrap();
    assert_eq!(chrono_to_git2_time(&west), EngineTime { seconds: -5, offset_minutes: -300 });
}

#[test]
fn offset_seconds_are_cut_toward_zero() {
    let east = CommitDate::new(0, 119).unwrap();
    assert_eq!(chrono_to_git2_time(&east).offset_minutes, 1);
    let west = CommitDate::new(0, -119).unwrap();
    assert_eq!(chrono_to_git2_time(&west).offset_minutes, -1);
    let small = CommitDate::new(0, -59).unwrap();
    assert_eq!(chrono_to_git2_time(&small).offset_minutes, 0);
    // Seconds beyond the minute do not survive the engine's representation.
    assert_eq!(round_trip(0, 19_815).offset_seconds(), 19_800);
}

#[test]
fn date_of_engine_time_has_offset_in_seconds() {
    let date = git2_to_chrono_date(&EngineTime { seconds: 42, offset_minutes: -570 }).unwrap();
    assert_eq!(date.timestamp(), 42);
    assert_eq!(date.offset_seconds(), -34_200);
}

#[test]
fn offset_of_a_day_is_refused() {
    assert_eq!(
        git2_to_chrono_date(&EngineTime { seconds: 0, offset_minutes: 1440 }),
        Err(InvalidTimestamp::Offset)
    );
    assert_eq!(
        git2_to_chrono_date(&EngineTime { seconds: 0, offset_minutes: -1440 }),
        Err(InvalidTimestamp::Offset)
    );
    assert!(git2_to_chrono_date(&EngineTime { seconds: 0, offset_minutes: 1439 }).is_ok());
    assert!(git2_to_chrono_date(&EngineTime { seconds: 0, offset_minutes: -1439 }).is_ok());
}

#[test]
fn offset_too_large_to_multiply_is_refused() {
    assert_eq!(
        git2_to_chrono_date(&EngineTime { seconds: 0, offset_minutes: i32::MAX }),
        Err(InvalidTimestamp::Offset)
    );
    assert_eq!(
        git2_to_chrono_date(&EngineTime { seconds: 0, offset_minutes: i32::MIN }),
        Err(InvalidTimestamp::Offset)
    );
    // 71_582_789 * 60 wraps round to 44 in 32 bits.
    assert_eq!(
        git2_to_chrono_date(&EngineTime { seconds: 0, offset_minutes: 71_582_789 }),
        Err(InvalidTimestamp::Offset)
    );
}

#[test]
fn instant_outside_the_calendar_is_refused() {
    assert!(git2_to_chrono_date(&EngineTime { seconds: MAX_INSTANT, offset_minutes: 0 }).is_ok());
    assert_eq!(
        git2_to_chrono_date(&EngineTime { seconds: MAX_INSTANT + 1, offset_minutes: 0 }),
        Err(InvalidTimestamp::Instant)
    );
    assert!(git2_to_chrono_date(&EngineTime { seconds: MIN_INSTANT, offset_minutes: 0 }).is_ok());
    assert_eq!(
        git2_to_chrono_date(&EngineTime { seconds: MIN_INSTANT - 1, offset_minutes: 0 }),
        Err(InvalidTimestamp::Instant)
    );
    assert_eq!(
        git2_to_chrono_date(&EngineTime { seconds: i64::MAX, offset_minutes: 0 }),
        Err(InvalidTimestamp::Instant)
    );
    assert_eq!(
        git2_to_chrono_date(&EngineTime { seconds: i64::MIN, offset_minutes: 0 }),
        Err(InvalidTimestamp::Instant)
    );
}

#[test]
fn offset_is_judged_before_instant() {
    assert_eq!(
        git2_to_chrono_date(&EngineTime { seconds: i64::MAX, offset_minutes: 5000 }),
        Err(InvalidTimestamp::Offset)
    );
    assert_eq!(CommitDate::new(i64::MIN, 86_400), Err(InvalidTimestamp::Offset));
}

#[test]
fn new_date_checks_both_parts() {
    assert!(CommitDate::new(0, 86_399).is_ok());
    assert!(CommitDate::new(0, -86_399).is_ok());
    assert_eq!(CommitDate::new(0, 86_400), Err(InvalidTimestamp::Offset));
    assert_eq!(CommitDate::new(0, -86_400), Err(InvalidTimestamp::Offset));
    assert_eq!(CommitDate::new(MAX_INSTANT + 1, 0), Err(InvalidTimestamp::Instant));
    assert_eq!(CommitDate::new(MIN_INSTANT - 1, 0), Err(InvalidTimestamp::Instant));
}

#[test]
fn limits_are_those_of_the_calendar() {
    assert_eq!(DateTime::<Utc>::MIN_UTC.timestamp(), MIN_INSTANT);
    assert_eq!(DateTime::<Utc>::MAX_UTC.timestamp(), MAX_INSTANT);
    assert!(DateTime::from_timestamp(MIN_INSTANT, 0).is_some());
    assert!(DateTime::from_timestamp(MIN_INSTANT - 1, 0).is_none());
    assert!(DateTime::from_timestamp(MAX_INSTANT, 0).is_some());
    assert!(DateTime::from_timestamp(MAX_INSTANT + 1, 0).is_none());
    assert!(FixedOffset::east_opt(OFFSET_LIMIT - 1).is_some());
    assert!(FixedOffset::east_opt(OFFSET_LIMIT).is_none());
    assert!(FixedOffset::east_opt(-OFFSET_LIMIT + 1).is_some());
    assert!(FixedOffset::east_opt(-OFFSET_LIMIT).is_none());
}

#[test]
fn date_agrees_with_the_calendar_library() {
    let parsed = DateTime::parse_from_rfc3339("2024-02-29T13:45:10+05:30").unwrap();
    let date = CommitDate::new(parsed.timestamp(), parsed.offset().local_minus_utc()).unwrap();
    let time = chrono_to_git2_time(&date);
    assert_eq!(time, EngineTime { seconds: 1_709_194_510, offset_minutes: 330 });
    let back = git2_to_chrono_date(&time).unwrap();
    let rebuilt = DateTime::from_timestamp(back.timestamp(), 0)
        .unwrap()
        .with_timezone(&FixedOffset::east_opt(back.offset_seconds()).unwrap());
    assert_eq!(rebuilt, parsed);
    assert_eq!(rebuilt.to_rfc3339(), "2024-02-29T13:45:10+05:30");
}
