use jobrail::repeat::{RepeatSchedule, RepeatableJob};

#[test]
fn creates_enabled_repeatable_job() {
    let job = RepeatableJob::new(
        "send_report".to_string(),
        serde_json::from_str(r#"{"user_id": 123}"#).unwrap(),
        RepeatSchedule::EveryMillis(60_000),
    );

    assert!(job.enabled);

    assert_eq!(job.name, "send_report");

    assert!(matches!(job.schedule, RepeatSchedule::EveryMillis(60_000)));
    assert_eq!(job.next_run_at, None);
    assert_eq!(job.payload["user_id"], 123);
}

#[test]
fn calculates_next_run_for_interval() {
    let schedule = RepeatSchedule::EveryMillis(10_000);

    let now = 1_000_000;

    let next = schedule.next_run_at(now);

    assert_eq!(next, 1_010_000);
}

#[test]
fn next_run_from_now_lies_one_period_ahead() {
    let schedule = RepeatSchedule::EveryMillis(10_000);
    let before = std::time::SystemTime::now()
        .duration_since(std::time::UNIX_EPOCH)
        .unwrap()
        .as_millis() as u64;
    let next = schedule.next_run_at_from_now().unwrap();
    let after = std::time::SystemTime::now()
        .duration_since(std::time::UNIX_EPOCH)
        .unwrap()
        .as_millis() as u64;
    assert!(next >= before + 10_000);
    assert!(next <= after + 10_000);
}

#[test]
fn next_run_overflow_is_reported() {
    let schedule = RepeatSchedule::EveryMillis(u64::MAX);
    let result = schedule.next_run_after(1);
    assert_eq!(result, Err("next run time does not fit in a u64".to_string()));
    assert_eq!(schedule.next_run_after(0), Ok(u64::MAX));
}

#[test]
fn clock_before_the_epoch_is_an_error() {
    let schedule = RepeatSchedule::EveryMillis(10_000);
    let result = schedule.next_run_from_clock(Err("second time provided was later".to_string()));
    let message = result.unwrap_err();
    assert!(message.starts_with("system clock is before UNIX epoch"));
    assert_eq!(schedule.next_run_from_clock(Ok(1_000_000)), Ok(1_010_000));
    assert!(schedule.next_run_from_clock(Ok(u64::MAX)).is_err());
}
