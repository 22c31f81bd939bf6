use jobrail::idempotency::IdempotencyState;
use jobrail::job::{Job, JobAttemptStatus, JobId, JobOptions, JobState};
use jobrail::repeat::{RepeatSchedule, RepeatableJob};
use jobrail::storage::{advance_repeatable, plan_execution, JobLease};
use jobrail::worker::{due_run, RunAction, RunEvent, RunOnce, Worker, WorkerConfigError};

fn feed(run: RunOnce, event: RunEvent) -> (RunOnce, RunAction) {
    assert!(run.accepts(&event));
    run.step(event)
}

fn job_with(options: JobOptions) -> Job {
    Job::new("charge".to_string(), serde_json::Value::Null, options)
}

/// Drives a run up to the point where the store accepted the start.
fn started(job: Job) -> (RunOnce, RunAction) {
    let lease = JobLease { job_id: job.id, token: "token".to_string() };
    let (run, action) = feed(RunOnce::new(), RunEvent::Begin);
    assert!(matches!(action, RunAction::Claim { lease_ms: 30_000 }));
    let (run, action) = feed(run, RunEvent::Claimed(lease));
    assert!(matches!(action, RunAction::StartHeartbeat { every_ms: 5_000, lease_ms: 30_000, .. }));
    let (run, action) = feed(run, RunEvent::HeartbeatStarted);
    assert!(matches!(action, RunAction::Load { .. }));
    let (run, action) = feed(run, RunEvent::Loaded(Some(job)));
    assert!(matches!(action, RunAction::Start { .. }));
    feed(run, RunEvent::Started(true))
}

#[test]
fn worker_needs_workers() {
    assert_eq!(Worker::new(0).unwrap_err(), WorkerConfigError::ZeroConcurrency);
    assert_eq!(Worker::new(3).unwrap().concurrency(), 3);
    assert_eq!(
        Worker::new(0).unwrap_err().message(),
        "worker concurrency must be greater than zero"
    );
}

#[test]
fn successful_run_completes_the_job() {
    let job = job_with(JobOptions::default());
    let id = job.id;
    let (run, action) = started(job);
    assert!(matches!(action, RunAction::ReadClock));
    let (run, action) = feed(run, RunEvent::Clock(1_000));
    match &action {
        RunAction::RecordAttempt { job_id, attempt } => {
            assert_eq!(*job_id, id);
            assert_eq!(attempt.attempt, 1);
            assert_eq!(attempt.started_at, 1_000);
            assert_eq!(attempt.status, JobAttemptStatus::Running);
        }
        other => panic!("unexpected {other:?}"),
    }
    let (run, action) = feed(run, RunEvent::Recorded);
    assert!(matches!(action, RunAction::Execute { .. }));
    let (run, action) = feed(run, RunEvent::Executed(Ok(())));
    assert!(matches!(action, RunAction::StopHeartbeat));
    let (run, action) = feed(run, RunEvent::HeartbeatStopped);
    assert!(matches!(
        action,
        RunAction::FinishAttempt { number: 1, status: JobAttemptStatus::Completed, error: None, .. }
    ));
    let (run, action) = feed(run, RunEvent::Recorded);
    assert!(matches!(action, RunAction::Complete { .. }));
    let (_, action) = feed(run, RunEvent::Settled(true));
    assert!(matches!(action, RunAction::Finish { job_state: Some(JobState::Completed) }));
}

#[test]
fn failed_run_is_retried_with_backoff() {
    let job = job_with(JobOptions::default());
    let (run, _) = started(job);
    let (run, _) = feed(run, RunEvent::Clock(1_000));
    let (run, _) = feed(run, RunEvent::Recorded);
    let (run, _) = feed(run, RunEvent::Executed(Err("boom".to_string())));
    let (run, action) = feed(run, RunEvent::HeartbeatStopped);
    match &action {
        RunAction::FinishAttempt { status, error, .. } => {
            assert_eq!(*status, JobAttemptStatus::Failed);
            assert_eq!(error.as_deref(), Some("boom"));
        }
        other => panic!("unexpected {other:?}"),
    }
    let (run, action) = feed(run, RunEvent::Recorded);
    assert!(matches!(action, RunAction::ReadClock));
    let (run, action) = feed(run, RunEvent::Clock(50_000));
    assert!(matches!(
        action,
        RunAction::Fail { state: JobState::Delayed, retry_at: 51_000, .. }
    ));
    let (_, action) = feed(run, RunEvent::Settled(true));
    assert!(matches!(action, RunAction::Finish { job_state: Some(JobState::Delayed) }));
}

#[test]
fn last_attempt_fails_the_job() {
    let job = job_with(JobOptions { max_attempts: 1, ..Default::default() });
    let (run, _) = started(job);
    let (run, _) = feed(run, RunEvent::Clock(1_000));
    let (run, _) = feed(run, RunEvent::Recorded);
    let (run, _) = feed(run, RunEvent::Executed(Err("boom".to_string())));
    let (run, _) = feed(run, RunEvent::HeartbeatStopped);
    let (run, action) = feed(run, RunEvent::Recorded);
    assert!(matches!(action, RunAction::Fail { state: JobState::Failed, retry_at: 0, .. }));
    let (_, action) = feed(run, RunEvent::Settled(false));
    assert!(matches!(action, RunAction::Finish { job_state: Some(JobState::Active) }));
}

#[test]
fn same_idempotency_key_executes_only_once() {
    let options = JobOptions { idempotency_key: Some("payment:test:123".to_string()), ..Default::default() };

    // The first job finds the key new, claims it and runs.
    let (run, action) = started(job_with(options.clone()));
    assert!(matches!(&action, RunAction::CheckKey { key } if key == "payment:test:123"));
    let (run, action) = feed(run, RunEvent::KeyState(IdempotencyState::New));
    assert!(matches!(action, RunAction::ClaimKey { .. }));
    let (run, action) = feed(run, RunEvent::KeyClaimed(true));
    assert!(matches!(action, RunAction::ReadClock));
    let (run, _) = feed(run, RunEvent::Clock(1));
    let (run, action) = feed(run, RunEvent::Recorded);
    assert!(matches!(action, RunAction::Execute { .. }));
    let (run, _) = feed(run, RunEvent::Executed(Ok(())));
    let (run, _) = feed(run, RunEvent::HeartbeatStopped);
    let (_, action) = feed(run, RunEvent::Recorded);
    assert!(matches!(&action, RunAction::CompleteWithKey { key, .. } if key == "payment:test:123"));

    // The second job finds the key completed and is completed without running.
    let (run, _) = started(job_with(options.clone()));
    let (run, action) = feed(run, RunEvent::KeyState(IdempotencyState::Completed));
    assert!(matches!(action, RunAction::CompleteDuplicate { .. }));
    let (_, action) = feed(run, RunEvent::Settled(true));
    assert!(matches!(action, RunAction::Finish { job_state: Some(JobState::Completed) }));

    // A job whose key is still being processed goes back to waiting.
    let (run, _) = started(job_with(options.clone()));
    let (run, action) = feed(run, RunEvent::KeyState(IdempotencyState::Processing));
    assert!(matches!(action, RunAction::ReturnToWaiting { .. }));
    let (_, action) = feed(run, RunEvent::Settled(true));
    assert!(matches!(action, RunAction::Finish { job_state: Some(JobState::Waiting) }));

    // A job that loses the race for the key stops.
    let (run, _) = started(job_with(options));
    let (run, _) = feed(run, RunEvent::KeyState(IdempotencyState::New));
    let (_, action) = feed(run, RunEvent::KeyClaimed(false));
    assert!(matches!(action, RunAction::Finish { .. }));
}

#[test]
fn stale_start_and_missing_job_stop_the_run() {
    let job = job_with(JobOptions::default());
    let lease = JobLease { job_id: job.id, token: "t".to_string() };
    let (run, _) = feed(RunOnce::new(), RunEvent::Begin);
    let (run, _) = feed(run, RunEvent::Claimed(lease.clone()));
    let (run, _) = feed(run, RunEvent::HeartbeatStarted);
    let (run, _) = feed(run, RunEvent::Loaded(Some(job)));
    let (_, action) = feed(run, RunEvent::Started(false));
    assert!(matches!(action, RunAction::Finish { job_state: Some(JobState::Waiting) }));

    let (run, _) = feed(RunOnce::new(), RunEvent::Begin);
    let (run, _) = feed(run, RunEvent::Claimed(lease));
    let (run, _) = feed(run, RunEvent::HeartbeatStarted);
    let (run, action) = feed(run, RunEvent::Loaded(None));
    assert!(matches!(&action, RunAction::ReleaseMissing { token, .. } if token == "t"));
    let (_, action) = feed(run, RunEvent::Released);
    assert!(matches!(action, RunAction::Finish { job_state: None }));
}

#[test]
fn runs_reject_unexpected_reports() {
    let run = RunOnce::new();
    assert!(!run.accepts(&RunEvent::Recorded));
    assert!(run.accepts(&RunEvent::Begin));
}

#[test]
fn overflowing_retry_is_not_accepted() {
    let job = job_with(JobOptions { max_attempts: 10, ..Default::default() });
    let (run, _) = started(job);
    let (run, _) = feed(run, RunEvent::Clock(1));
    let (run, _) = feed(run, RunEvent::Recorded);
    let (run, _) = feed(run, RunEvent::Executed(Err("x".to_string())));
    let (run, _) = feed(run, RunEvent::HeartbeatStopped);
    let (run, _) = feed(run, RunEvent::Recorded);
    assert!(!run.accepts(&RunEvent::Clock(u64::MAX)));
    assert!(run.accepts(&RunEvent::Clock(u64::MAX - 1_000)));
}

fn repeatable(next: Option<u64>, enabled: bool) -> Option<RepeatableJob> {
    let mut job = RepeatableJob::new(
        "send_report".to_string(),
        serde_json::Value::Null,
        RepeatSchedule::EveryMillis(60_000),
    );
    job.next_run_at = next;
    job.enabled = enabled;
    Some(job)
}

#[test]
fn disabled_repeatable_job_does_not_create_execution() {
    assert_eq!(due_run(&repeatable(Some(10), false), 100), None);
    assert_eq!(due_run(&repeatable(Some(10), true), 100), Some(10));
    assert_eq!(due_run(&repeatable(Some(101), true), 100), None);
    assert_eq!(due_run(&repeatable(None, true), 100), None);
    assert_eq!(due_run(&None, 100), None);
}

#[test]
fn repeatable_scheduler_creates_due_execution() {
    let job = repeatable(Some(5_000), true);
    let run_at = due_run(&job, 5_000).unwrap();
    let plan = plan_execution(job.as_ref().unwrap(), run_at);
    assert_eq!(plan.job.run_at, Some(5_000));
    assert_eq!(plan.job.state, JobState::Scheduled);
    assert_eq!(plan.advanced.next_run_at, Some(65_000));
}

#[test]
fn two_scheduler_passes_create_only_one_execution() {
    let job = repeatable(Some(5_000), true);
    let run_at = due_run(&job, 5_100).unwrap();
    let advanced = advance_repeatable(job.unwrap(), run_at);
    assert_eq!(due_run(&Some(advanced), 5_200), None);
}

#[test]
fn ids_are_plain_numbers() {
    assert_eq!(JobId(5), JobId(5));
}
