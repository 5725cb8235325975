use chrono::{Local, TimeZone};
use backup_client::cron::{next_run_after, NextRunError, normalize_schedule, to_six_field, validate_schedule, ScheduleError};

#[test]
fn converts_five_field_cron() {
    assert_eq!(to_six_field("0 8 * * *").unwrap(), "0 0 8 * * *");
}

#[test]
fn fixes_slash_one_typo() {
    assert_eq!(validate_schedule("/1 * * * *").unwrap(), "*/1 * * * *");
}

#[test]
fn pads_short_input() {
    assert_eq!(validate_schedule("*/1").unwrap(), "*/1 * * * *");
    assert_eq!(validate_schedule("0 8").unwrap(), "0 8 * * *");
    assert_eq!(validate_schedule("/1").unwrap(), "*/1 * * * *");
}

#[test]
fn rejects_all_wildcards() {
    assert!(validate_schedule("* * * * *").is_err());
    assert!(validate_schedule("*").is_err());
}

#[test]
fn rejects_empty() {
    assert!(validate_schedule("").is_err());
    assert!(validate_schedule("   ").is_err());
}

#[test]
fn converts_minute_interval_shorthand() {
    assert_eq!(validate_schedule("*/60").unwrap(), "0 * * * *");
    assert_eq!(validate_schedule("*/120").unwrap(), "0 */2 * * *");
    assert_eq!(validate_schedule("/60").unwrap(), "0 * * * *");
    assert_eq!(validate_schedule("*/180 * * * *").unwrap(), "0 */3 * * *");
}

#[test]
fn rejects_non_hour_minute_interval() {
    assert!(validate_schedule("*/90").is_err());
}

#[test]
fn each_schedule_error_comes_from_its_input() {
    assert_eq!(validate_schedule("  ").unwrap_err(), ScheduleError::Required);
    assert_eq!(
        validate_schedule("1 2 3 4 5 6").unwrap_err(),
        ScheduleError::TooMany { count: 6 }
    );
    assert_eq!(validate_schedule("* *").unwrap_err(), ScheduleError::TooBroad);
    assert_eq!(validate_schedule("*/90").unwrap_err(), ScheduleError::MinuteInterval);
}

#[test]
fn normalizing_twice_changes_nothing() {
    for raw in ["*/120", "/1", " 0  8 ", "*/90", "1 2 3 4 5 6 7", ""] {
        let once = normalize_schedule(raw);
        assert_eq!(normalize_schedule(&once), once);
    }
}

#[test]
fn validated_schedule_is_already_normal() {
    let ok = validate_schedule("*/240").unwrap();
    assert_eq!(ok, "0 */4 * * *");
    assert_eq!(normalize_schedule(&ok), ok);
    assert_eq!(validate_schedule(&ok).unwrap(), ok);
}

#[test]
fn six_field_form_prepends_seconds() {
    assert_eq!(to_six_field(" */5 ").unwrap(), "0 */5 * * * *");
    assert_eq!(
        to_six_field("  "),
        Err(ScheduleError::Invalid { count: 0, expr: String::new() })
    );
}

#[test]
fn next_run_finds_following_slot() {
    let after = Local.with_ymd_and_hms(2026, 7, 4, 22, 0, 0).unwrap();
    let offset = after.offset().local_minus_utc();
    let next = next_run_after("5 22 * * *", after.timestamp(), offset).unwrap().unwrap();
    assert_eq!(next, Local.with_ymd_and_hms(2026, 7, 4, 22, 5, 0).unwrap().timestamp());
}

#[test]
fn next_run_reports_bad_schedules() {
    assert!(matches!(next_run_after("   ", 0, 0), Err(NextRunError::Schedule(_))));
    assert!(matches!(next_run_after("61 * * * *", 0, 0), Err(NextRunError::Cron(_))));
}

#[test]
fn next_run_reads_the_schedule_in_the_given_offset() {
    // 2026-01-01T00:00:00Z; at UTC+03:00 the next 06:30 local is 03:30 UTC.
    let after = 1_767_225_600;
    assert_eq!(next_run_after("30 6 * * *", after, 3 * 3600).unwrap(), Some(after + 3 * 3600 + 1800));
    assert_eq!(next_run_after("30 6 * * *", after, 0).unwrap(), Some(after + 6 * 3600 + 1800));
    // Strictly later: a time that is itself a fire time gives the next one.
    assert_eq!(next_run_after("*/1 * * * *", after, 0).unwrap(), Some(after + 60));
}
