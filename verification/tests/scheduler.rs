use gsm_supervisor::errors::InstanceError;
use gsm_supervisor::scheduler::{
    count_fields, job_from_verdict, normalize_schedule, register_job, spawn_scheduled_job,
    wait_until, Moment, ScheduledJob, CRON_TICK_SECONDS, LAST_SECOND,
};

#[test]
fn five_fields_get_a_seconds_field() {
    assert_eq!(normalize_schedule("*/5 * * * *"), "0 */5 * * * *");
    assert_eq!(normalize_schedule("0 3 * * *"), "0 0 3 * * *");
}

#[test]
fn six_fields_pass_unchanged() {
    assert_eq!(normalize_schedule("0 */5 * * * *"), "0 */5 * * * *");
}

#[test]
fn other_field_counts_pass_unchanged() {
    assert_eq!(normalize_schedule(""), "");
    assert_eq!(normalize_schedule("@daily"), "@daily");
    assert_eq!(normalize_schedule("* * * *"), "* * * *");
    assert_eq!(normalize_schedule("0 0 0 1 1 * 2030"), "0 0 0 1 1 * 2030");
}

#[test]
fn fields_are_separated_by_any_whitespace() {
    assert_eq!(count_fields(""), 0);
    assert_eq!(count_fields("   "), 0);
    assert_eq!(count_fields("a"), 1);
    assert_eq!(count_fields(" a  b\tc\n"), 3);
    assert_eq!(count_fields("*/5 * * * *"), 5);
    assert_eq!(count_fields("1\u{a0}2\u{2003}3"), 3);
    assert_eq!(normalize_schedule(" 1  2 3 4 5 "), "0  1  2 3 4 5 ");
}

#[test]
fn job_with_five_field_schedule_is_registered_with_six() {
    let job = register_job("auto-update", "0 3 * * *").unwrap();
    assert_eq!(job.name, "auto-update");
    assert_eq!(job.schedule, "0 0 3 * * *");
    assert_eq!(job.last, None);
}

#[test]
fn job_with_bad_schedule_is_not_registered() {
    match register_job("broken", "every now and then") {
        Err(InstanceError::ConfigError(message)) => assert!(!message.is_empty()),
        other => panic!("unexpected result {:?}", other),
    }
    assert!(matches!(register_job("empty", ""), Err(InstanceError::ConfigError(_))));
    assert!(register_job("later", "0 4 * * *").is_ok());
}

#[test]
fn schedule_in_parser_form_is_not_adjusted() {
    assert!(matches!(
        spawn_scheduled_job("five", "*/5 * * * *"),
        Err(InstanceError::ConfigError(_))
    ));
    let job = spawn_scheduled_job("six", "0 */5 * * * *").unwrap();
    assert_eq!(job.schedule, "0 */5 * * * *");
    assert_eq!(job.name, "six");
}

#[test]
fn verdict_decides_whether_there_is_a_job() {
    let job = job_from_verdict("n", "s", Ok(())).unwrap();
    assert_eq!(job.name, "n");
    assert_eq!(job.schedule, "s");
    assert_eq!(job.last, None);
    match job_from_verdict("n", "s", Err("bad field".to_string())) {
        Err(InstanceError::ConfigError(message)) => assert_eq!(message, "bad field"),
        other => panic!("unexpected result {:?}", other),
    }
}

#[test]
fn wait_is_the_time_until_due() {
    let now = Moment { seconds: 10, nanos: 5 };
    assert_eq!(wait_until(now, Moment { seconds: 12, nanos: 1 }), 1_999_999_996);
    assert_eq!(wait_until(now, Moment { seconds: 10, nanos: 6 }), 1);
    assert_eq!(wait_until(now, Moment { seconds: 70, nanos: 5 }), 60_000_000_000);
}

#[test]
fn wait_is_zero_when_overdue() {
    let now = Moment { seconds: 10, nanos: 5 };
    assert_eq!(wait_until(now, now), 0);
    assert_eq!(wait_until(now, Moment { seconds: 10, nanos: 4 }), 0);
    assert_eq!(wait_until(now, Moment { seconds: -10, nanos: 999_999_999 }), 0);
}

#[test]
fn wait_covers_the_whole_range_of_moments() {
    let first = Moment { seconds: i64::MIN, nanos: 0 };
    let last = Moment { seconds: i64::MAX, nanos: u32::MAX };
    let expected = (i64::MAX as i128 - i64::MIN as i128) * 1_000_000_000 + u32::MAX as i128;
    assert_eq!(wait_until(first, last), expected as u128);
    assert_eq!(wait_until(last, first), 0);
}

#[test]
fn occurrences_follow_one_another() {
    let mut job = register_job("tick", "*/5 * * * *").unwrap();
    let now = Moment { seconds: 1_700_000_000, nanos: 0 };
    let wait = job.next_wait(now).unwrap();
    assert_eq!(wait, 100_000_000_000);
    assert_eq!(job.last, Some(Moment { seconds: 1_700_000_100, nanos: 0 }));
    let later = Moment { seconds: 1_700_000_101, nanos: 500 };
    let wait = job.next_wait(later).unwrap();
    assert_eq!(job.last, Some(Moment { seconds: 1_700_000_400, nanos: 0 }));
    assert_eq!(wait, 298_999_999_500);
    assert_eq!(job.name, "tick");
    assert_eq!(job.schedule, "0 */5 * * * *");
}

#[test]
fn slow_job_does_not_wait_for_a_past_occurrence() {
    let mut job = register_job("tick", "*/5 * * * *").unwrap();
    job.last = Some(Moment { seconds: 1_700_000_100, nanos: 0 });
    let much_later = Moment { seconds: 1_700_009_999, nanos: 0 };
    assert_eq!(job.next_wait(much_later), Some(0));
    assert_eq!(job.last, Some(Moment { seconds: 1_700_000_400, nanos: 0 }));
}

#[test]
fn job_ends_where_the_schedule_has_no_more_occurrences() {
    let mut job = register_job("once", "0 0 0 1 1 * 2020").unwrap();
    let before = Moment { seconds: 1_500_000_000, nanos: 0 };
    assert_eq!(job.next_wait(before), Some((1_577_836_800u128 - 1_500_000_000) * 1_000_000_000));
    assert_eq!(job.next_wait(before), None);
    assert_eq!(job.last, Some(Moment { seconds: 1_577_836_800, nanos: 0 }));
}

#[test]
fn moments_outside_the_range_of_dates_have_no_occurrence() {
    let mut job = register_job("tick", "* * * * *").unwrap();
    assert_eq!(job.next_wait(Moment { seconds: -1, nanos: 0 }), None);
    assert_eq!(job.next_wait(Moment { seconds: LAST_SECOND + 1, nanos: 0 }), None);
    assert_eq!(job.next_wait(Moment { seconds: i64::MAX, nanos: 0 }), None);
    assert_eq!(job.last, None);
    assert_eq!(job.next_wait(Moment { seconds: LAST_SECOND, nanos: 0 }), None);
}

#[test]
fn job_with_unparsable_schedule_has_no_occurrence() {
    let mut job = ScheduledJob { name: "x".to_string(), schedule: "nonsense".to_string(), last: None };
    assert_eq!(job.next_wait(Moment { seconds: 1_700_000_000, nanos: 0 }), None);
}

#[test]
fn taken_occurrence_is_remembered() {
    let mut job = ScheduledJob { name: "x".to_string(), schedule: "s".to_string(), last: None };
    let now = Moment { seconds: 5, nanos: 0 };
    assert_eq!(job.take_occurrence(now, Some((7, 250))), Some(2_000_000_250));
    assert_eq!(job.last, Some(Moment { seconds: 7, nanos: 250 }));
    assert_eq!(job.take_occurrence(now, None), None);
    assert_eq!(job.last, Some(Moment { seconds: 7, nanos: 250 }));
    assert_eq!(job.take_occurrence(now, Some((1, 0))), Some(0));
}

#[test]
fn idle_tick_is_a_minute() {
    assert_eq!(CRON_TICK_SECONDS, 60);
}
