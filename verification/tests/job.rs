use jobrail::job::{Job, JobOptions, JobState};

fn email_payload() -> serde_json::Value {
    serde_json::from_str(r#"{"email": "test@example.com"}"#).unwrap()
}

fn empty_payload() -> serde_json::Value {
    serde_json::from_str("{}").unwrap()
}

#[test]
fn job_can_transition_to_active() {
    let mut job = Job::new("send_email".to_string(), email_payload(), JobOptions::default());

    let result = job.transition_to(JobState::Active);

    assert!(result.is_ok());
    assert_eq!(job.state, JobState::Active);
}

#[test]
fn job_cannot_transition_from_completed_to_active() {
    let mut job = Job::new("send_email".to_string(), email_payload(), JobOptions::default());

    job.state = JobState::Completed;

    let result = job.transition_to(JobState::Active);

    assert!(result.is_err());
    assert_eq!(job.state, JobState::Completed);
    let error = result.unwrap_err();
    assert_eq!(error.from, JobState::Completed);
    assert_eq!(error.to, JobState::Active);
}

#[test]
fn new_job_starts_waiting() {
    let job = Job::new("send_email".to_string(), email_payload(), JobOptions::default());

    assert_eq!(job.state, JobState::Waiting);
    assert_eq!(job.priority, 0);
    assert_eq!(job.attempts_made, 0);
    assert_eq!(job.attempts_started, 0);
    assert_eq!(job.max_attempts, 3);
    assert_eq!(job.delay_ms, 0);
}

#[test]
fn priority_job_starts_prioritized() {
    let options = JobOptions {
        priority: 10,
        ..Default::default()
    };

    let job = Job::new("send_email".to_string(), empty_payload(), options);

    assert_eq!(job.state, JobState::Prioritized);
}

#[test]
fn delayed_job_starts_delayed() {
    let options = JobOptions {
        delay_ms: 5_000,
        ..Default::default()
    };

    let job = Job::new("send_email".to_string(), empty_payload(), options);

    assert_eq!(job.state, JobState::Delayed);
}

#[test]
fn run_time_wins_over_delay_and_priority() {
    let options = JobOptions {
        priority: 5,
        delay_ms: 5_000,
        run_at: Some(1_000),
        ..Default::default()
    };

    let job = Job::new("send_email".to_string(), empty_payload(), options);

    assert_eq!(job.state, JobState::Scheduled);
    assert_eq!(job.run_at, Some(1_000));
}

#[test]
fn new_jobs_get_distinct_ids() {
    let a = Job::new("a".to_string(), empty_payload(), JobOptions::default());
    let b = Job::new("b".to_string(), empty_payload(), JobOptions::default());
    assert_ne!(a.id, b.id);
}

#[test]
fn retry_delay_uses_exponential_backoff() {
    let mut job = Job::new("send_email".to_string(), empty_payload(), JobOptions::default());

    job.attempts_made = 1;
    assert_eq!(job.retry_delay_ms(), 1_000);

    job.attempts_made = 2;
    assert_eq!(job.retry_delay_ms(), 2_000);

    job.attempts_made = 3;
    assert_eq!(job.retry_delay_ms(), 4_000);

    job.attempts_made = 4;
    assert_eq!(job.retry_delay_ms(), 8_000);
}

#[test]
fn retry_delay_edges() {
    let mut job = Job::new("send_email".to_string(), empty_payload(), JobOptions::default());

    job.attempts_made = 0;
    assert_eq!(job.retry_delay_ms(), 1_000);

    job.attempts_made = 55;
    assert_eq!(job.retry_delay_ms(), 1_000u64 << 54);
}
