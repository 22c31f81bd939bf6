use jobrail::idempotency::{
    claim, complete, state_of, IdempotencyRecord, IdempotencyState, IdempotencyStatus,
};
use jobrail::job::{Job, JobAttemptStatus, JobId, JobOptions, JobState};
use jobrail::repeat::{RepeatSchedule, RepeatableJob};
use jobrail::storage::{
    advance_repeatable, attempt_numbers, begin_attempt, cancel, complete_leased_job,
    complete_leased_job_with_key, disable_repeatable, due_members, execution_job, fail_leased_job,
    finish_attempt, plan_execution, promote_job, recover_job, renew_lease, retry,
    schedule_score, scheduled_run_at, start_leased_job, state_name, time_after, with_next_run,
    with_next_run_from,
    FailFollowUp, StorageError,
};

fn job(state: JobState) -> Job {
    let mut job = Job::new("job".to_string(), serde_json::Value::Null, JobOptions::default());
    job.state = state;
    job
}

#[test]
fn same_idempotency_key_can_only_be_claimed_once() {
    let a = JobId(1);
    let b = JobId(2);
    let first = claim(None, a);
    assert_eq!(first, Some(IdempotencyRecord { job_id: a, status: IdempotencyStatus::Processing }));
    assert_eq!(claim(first, b), None);
    assert_eq!(claim(first, a), None);
}

#[test]
fn idempotency_key_can_be_completed_by_owner() {
    let record = IdempotencyRecord { job_id: JobId(1), status: IdempotencyStatus::Processing };
    let done = complete(Some(record), JobId(1));
    assert_eq!(done, Some(IdempotencyRecord { job_id: JobId(1), status: IdempotencyStatus::Completed }));
    assert_eq!(complete(None, JobId(1)), None);
}

#[test]
fn different_job_cannot_complete_idempotency_key() {
    let record = IdempotencyRecord { job_id: JobId(1), status: IdempotencyStatus::Processing };
    assert_eq!(complete(Some(record), JobId(2)), None);
}

#[test]
fn missing_key_is_new() {
    assert_eq!(state_of(None), IdempotencyState::New);
}

#[test]
fn claimed_key_is_processing() {
    assert_eq!(state_of(claim(None, JobId(1))), IdempotencyState::Processing);
}

#[test]
fn completed_key_is_completed() {
    assert_eq!(
        state_of(complete(claim(None, JobId(1)), JobId(1))),
        IdempotencyState::Completed
    );
}

#[test]
fn stale_worker_cannot_start_job() {
    assert!(start_leased_job(false, job(JobState::Waiting)).is_none());
    assert_eq!(renew_lease(false, 10), None);
}

#[test]
fn stale_worker_cannot_complete_job() {
    assert!(complete_leased_job(false, job(JobState::Active)).is_none());
    assert!(fail_leased_job(false, job(JobState::Active), JobState::Failed, 0).is_none());
    assert!(complete_leased_job_with_key(false, job(JobState::Active)).is_none());
}

#[test]
fn job_and_idempotency_key_complete_together() {
    let (with_key, record) = complete_leased_job_with_key(true, job(JobState::Active)).unwrap();
    assert_eq!(with_key.state, JobState::Completed);
    assert_eq!(record.job_id, with_key.id);
    assert_eq!(record.status, IdempotencyStatus::Completed);
}

#[test]
fn owner_starts_and_completes() {
    let started = start_leased_job(true, job(JobState::Waiting)).unwrap();
    assert_eq!(started.state, JobState::Active);
    assert_eq!(started.attempts_started, 1);
    assert_eq!(started.attempts_made, 1);
    let done = complete_leased_job(true, started).unwrap();
    assert_eq!(done.state, JobState::Completed);
    assert_eq!(renew_lease(true, 10), Some(10));
}

#[test]
fn failing_follow_ups() {
    let (delayed, follow) = fail_leased_job(true, job(JobState::Active), JobState::Delayed, 99).unwrap();
    assert_eq!(delayed.state, JobState::Delayed);
    assert_eq!(follow, FailFollowUp::RetryAt(99));
    let (_, follow) = fail_leased_job(true, job(JobState::Active), JobState::Waiting, 0).unwrap();
    assert_eq!(follow, FailFollowUp::Requeue);
    let (failed, follow) = fail_leased_job(true, job(JobState::Active), JobState::Failed, 0).unwrap();
    assert_eq!(failed.state, JobState::Failed);
    assert_eq!(follow, FailFollowUp::Nothing);
}

#[test]
fn expired_job_is_requeued_and_can_execute_again() {
    let leases = vec![
        ("expired".to_string(), 0u64),
        ("current".to_string(), 5_000u64),
        ("just-due".to_string(), 1_000u64),
    ];
    assert_eq!(due_members(&leases, 1_000), vec!["expired".to_string(), "just-due".to_string()]);
    let recovered = recover_job(job(JobState::Active));
    assert_eq!(recovered.state, JobState::Waiting);
    assert!(recovered.state.can_transition_to(JobState::Active));
}

#[test]
fn scheduled_job_is_promoted_when_due() {
    let scheduled = vec![("job-a".to_string(), 1_000u64)];
    assert_eq!(due_members(&scheduled, 1_000), vec!["job-a".to_string()]);
    let promoted = promote_job(job(JobState::Scheduled)).unwrap();
    assert_eq!(promoted.state, JobState::Waiting);
}

#[test]
fn future_scheduled_job_is_not_promoted_early() {
    let scheduled = vec![("job-a".to_string(), 60_000u64)];
    assert!(due_members(&scheduled, 59_999).is_empty());
}

#[test]
fn promotion_follows_the_lifecycle() {
    let promoted = promote_job(job(JobState::Scheduled)).unwrap();
    assert_eq!(promoted.state, JobState::Waiting);
    assert_eq!(promote_job(job(JobState::Delayed)).unwrap().state, JobState::Waiting);
    match promote_job(job(JobState::Completed)) {
        Err(StorageError::InvalidTransition(e)) => {
            assert_eq!(e.from, JobState::Completed);
            assert_eq!(e.to, JobState::Waiting);
        }
        other => panic!("unexpected {other:?}"),
    }
}

#[test]
fn cancel_changes_state() {
    for state in [
        JobState::Waiting,
        JobState::Prioritized,
        JobState::Delayed,
        JobState::Scheduled,
        JobState::Active,
    ] {
        let (cancelled, remove) = cancel(job(state));
        assert_eq!(cancelled.state, JobState::Cancelled);
        assert!(remove);
    }
    for state in [JobState::Completed, JobState::Failed, JobState::Cancelled] {
        let (same, remove) = cancel(job(state));
        assert_eq!(same.state, state);
        assert!(!remove);
    }
}

#[test]
fn retry_failed_job_changes_state_to_waiting() {
    let mut failed = job(JobState::Failed);
    failed.run_at = Some(5);
    let (retried, enqueue) = retry(failed);
    assert_eq!(retried.state, JobState::Waiting);
    assert_eq!(retried.run_at, None);
    assert!(enqueue);

    let mut urgent = job(JobState::Failed);
    urgent.priority = 3;
    assert_eq!(retry(urgent).0.state, JobState::Prioritized);

    let (same, enqueue) = retry(job(JobState::Waiting));
    assert_eq!(same.state, JobState::Waiting);
    assert!(!enqueue);

    let (again, enqueue) = retry(retried);
    assert_eq!(again.state, JobState::Waiting);
    assert!(!enqueue);
    assert!(again.state.can_transition_to(JobState::Active));
}

#[test]
fn cancelling_twice_changes_nothing() {
    let (cancelled, _) = cancel(job(JobState::Waiting));
    let (again, remove) = cancel(cancelled);
    assert_eq!(again.state, JobState::Cancelled);
    assert!(!remove);
    assert!(!JobState::Cancelled.can_transition_to(JobState::Active));
}

#[test]
fn scheduling_needs_a_run_time() {
    assert!(matches!(scheduled_run_at(&job(JobState::Waiting)), Err(StorageError::MissingRunAt)));
    let mut scheduled = job(JobState::Scheduled);
    scheduled.run_at = Some(42);
    assert_eq!(scheduled_run_at(&scheduled).unwrap(), 42);
    assert_eq!(time_after(1_000, 500), 1_500);
}

fn repeatable() -> RepeatableJob {
    RepeatableJob::new(
        "send_report".to_string(),
        serde_json::from_str(r#"{"user_id": 123}"#).unwrap(),
        RepeatSchedule::EveryMillis(60_000),
    )
}

#[test]
fn repeatable_job_creates_scheduled_execution() {
    let repeatable = repeatable();
    let job = execution_job(&repeatable, 2_000_000);
    assert_eq!(job.name, "send_report");
    assert_eq!(job.payload["user_id"], 123);
    assert_eq!(job.run_at, Some(2_000_000));
    assert_eq!(job.state, JobState::Scheduled);
    assert_eq!(job.max_attempts, 3);
}

#[test]
fn repeatable_job_advances_to_next_occurrence() {
    let mut repeatable = repeatable();
    repeatable.schedule = RepeatSchedule::EveryMillis(1_000);
    repeatable.next_run_at = Some(0);
    let plan = plan_execution(&repeatable, 0);
    assert_eq!(plan.job.run_at, Some(0));
    assert_eq!(plan.advanced.next_run_at, Some(1_000));
    assert_eq!(plan.ttl_seconds, 86_400);
    assert!(plan.occurrence_key.ends_with(":0"));
    let advanced = advance_repeatable(repeatable, 5_000);
    assert_eq!(advanced.next_run_at, Some(6_000));
}

#[test]
fn repeatable_job_is_added_to_schedule_index() {
    let saved = with_next_run(repeatable()).unwrap();
    assert!(saved.next_run_at.is_some());
    assert_eq!(schedule_score(&saved), saved.next_run_at);
    let kept = with_next_run(RepeatableJob { next_run_at: Some(7), ..repeatable() }).unwrap();
    assert_eq!(kept.next_run_at, Some(7));
}

#[test]
fn next_run_is_taken_from_the_computation() {
    let fresh = with_next_run_from(repeatable(), Ok(61_000)).unwrap();
    assert_eq!(fresh.next_run_at, Some(61_000));
    let kept = with_next_run_from(RepeatableJob { next_run_at: Some(7), ..repeatable() }, Ok(61_000));
    assert_eq!(kept.unwrap().next_run_at, Some(7));
    match with_next_run_from(repeatable(), Err("clock".to_string())) {
        Err(StorageError::NextRun(message)) => assert_eq!(message, "clock"),
        other => panic!("unexpected {other:?}"),
    }
}

#[test]
fn repeatable_job_can_be_disabled() {
    let disabled = disable_repeatable(with_next_run(repeatable()).unwrap());
    assert!(!disabled.enabled);
    assert_eq!(schedule_score(&disabled), None);
}

#[test]
fn attempts_are_numbered_and_finished() {
    let mut j = job(JobState::Active);
    j.attempts_started = 3;
    assert_eq!(attempt_numbers(&j), vec![1, 2, 3]);
    let attempt = begin_attempt(1, 100);
    assert_eq!(attempt.status, JobAttemptStatus::Running);
    assert_eq!(attempt.finished_at, None);
    let finished = finish_attempt(attempt, 200, JobAttemptStatus::Failed, Some("boom".to_string()));
    assert_eq!(finished.attempt, 1);
    assert_eq!(finished.started_at, 100);
    assert_eq!(finished.finished_at, Some(200));
    assert_eq!(finished.status, JobAttemptStatus::Failed);
    assert_eq!(finished.error, Some("boom".to_string()));
}

#[test]
fn state_names() {
    assert_eq!(state_name(JobState::Waiting), "Waiting");
    assert_eq!(state_name(JobState::Cancelled), "Cancelled");
    assert_eq!(state_name(JobState::Prioritized), "Prioritized");
}

#[test]
fn lease_tokens_are_fresh_uuids() {
    let a = jobrail::storage::new_lease_token();
    let b = jobrail::storage::new_lease_token();
    assert_eq!(a.len(), 36);
    assert_eq!(&a[14..15], "4");
    assert!(jobrail::ids::parse_job_id(&a).is_some());
    assert_ne!(a, b);
}
