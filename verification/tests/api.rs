use jobrail::api::{
    check_queue_name, default_limit, default_max_attempts, found_job, job_id_from_path,
    job_response, plan_create_job, plan_create_job_at, queues_response, ApiError,
    CreateJobRequest, HealthResponse, JobPlacement, QueueStats, RepeatableJobResponse,
};
use jobrail::job::JobState;
use jobrail::repeat::{RepeatSchedule, RepeatableJob};

fn request(name: &str) -> CreateJobRequest {
    CreateJobRequest {
        name: name.to_string(),
        payload: serde_json::from_str(r#"{"message": "integration test"}"#).unwrap(),
        priority: 0,
        max_attempts: default_max_attempts(),
        delay_ms: 0,
        run_at: None,
        idempotency_key: None,
    }
}

#[test]
fn health_answers() {
    assert_eq!(HealthResponse::ok().status, "ok");
    assert_eq!(HealthResponse::ready().status, "ready");
    assert_eq!(default_limit(), 20);
    assert_eq!(default_max_attempts(), 3);
}

#[test]
fn create_and_get_job() {
    let (job, placement) = plan_create_job(request("create-and-get")).unwrap();
    assert_eq!(placement, JobPlacement::Enqueue);
    let response = job_response(&job);
    assert_eq!(response.name, "create-and-get");
    assert_eq!(response.state, "Waiting");
    assert_eq!(response.attempts_made, 0);
    assert_eq!(response.attempts_started, 0);
    assert_eq!(response.id.len(), 36);
}

#[test]
fn create_delayed_job() {
    let (job, placement) = plan_create_job(CreateJobRequest { delay_ms: 60_000, ..request("delayed-test") }).unwrap();
    assert_eq!(placement, JobPlacement::Delay);
    assert_eq!(job_response(&job).state, "Delayed");
}

#[test]
fn create_scheduled_job() {
    let (job, placement) =
        plan_create_job_at(CreateJobRequest { run_at: Some(2_000), ..request("scheduled-test") }, Ok(1_000)).unwrap();
    assert_eq!(placement, JobPlacement::Schedule);
    assert_eq!(job.state, JobState::Scheduled);
    assert_eq!(job_response(&job).run_at, Some(2_000));
}

#[test]
fn run_at_in_the_past_returns_bad_request() {
    let result = plan_create_job_at(CreateJobRequest { run_at: Some(1_000), ..request("invalid-scheduled-test") }, Ok(1_000));
    let (status, body) = result.unwrap_err().to_response();
    assert_eq!(status, 400);
    assert_eq!(body.error.code, "BAD_REQUEST");
    assert_eq!(body.error.message, "runAt must be in the future");
}

#[test]
fn zero_max_attempts_returns_bad_request() {
    let result = plan_create_job(CreateJobRequest { max_attempts: 0, ..request("invalid-attempts") });
    let (status, body) = result.unwrap_err().to_response();
    assert_eq!(status, 400);
    assert_eq!(body.error.code, "BAD_REQUEST");
    assert_eq!(body.error.message, "maxAttempts must be greater than 0");
}

#[test]
fn clock_failure_is_internal() {
    let result = plan_create_job_at(CreateJobRequest { run_at: Some(5), ..request("x") }, Err("broken".to_string()));
    match result {
        Err(ApiError::Internal(message)) => assert_eq!(message, "failed to read system clock: broken"),
        other => panic!("unexpected {other:?}"),
    }
    let (status, body) = ApiError::Internal("secret".to_string()).to_response();
    assert_eq!(status, 500);
    assert_eq!(body.error.code, "INTERNAL_SERVER_ERROR");
    assert_eq!(body.error.message, "internal server error");
}

#[test]
fn invalid_job_id_returns_bad_request() {
    let (status, body) = job_id_from_path("not-a-uuid").unwrap_err().to_response();
    assert_eq!(status, 400);
    assert_eq!(body.error.code, "BAD_REQUEST");
    assert_eq!(body.error.message, "invalid job id");
}

#[test]
fn missing_job_returns_not_found() {
    let (status, body) = found_job(None).unwrap_err().to_response();
    assert_eq!(status, 404);
    assert_eq!(body.error.code, "NOT_FOUND");
    assert_eq!(body.error.message, "job not found");
}

#[test]
fn list_queues_returns_default_queue() {
    let stats = QueueStats { waiting: 1, active: 2, delayed: 3, scheduled: 4, processing: 5 };
    let response = queues_response(stats);
    assert_eq!(response.queues.len(), 1);
    assert_eq!(response.queues[0].name, "default");
    assert_eq!(response.queues[0].waiting, 1);
    assert_eq!(response.queues[0].active, 2);
    assert_eq!(response.queues[0].delayed, 3);
    assert_eq!(response.queues[0].scheduled, 4);
    assert_eq!(response.queues[0].processing, 5);
}

#[test]
fn unknown_queue_returns_not_found() {
    assert!(check_queue_name("default").is_ok());
    let (status, body) = check_queue_name("does-not-exist").unwrap_err().to_response();
    assert_eq!(status, 404);
    assert_eq!(body.error.code, "NOT_FOUND");
}

#[test]
fn repeatable_job_response_shows_the_job() {
    let job = RepeatableJob::new("repeatable-test".to_string(), serde_json::Value::Null, RepeatSchedule::EveryMillis(60_000));
    let id = job.id;
    let response = RepeatableJobResponse::from_job(job);
    assert_eq!(response.id, id.text());
    assert!(response.enabled);
    assert_eq!(response.next_run_at, None);
    assert_eq!(response.schedule, RepeatSchedule::EveryMillis(60_000));
}

#[test]
fn scheduled_requests_are_checked_against_the_clock() {
    let mut past = request("past");
    past.run_at = Some(0);
    match plan_create_job(past) {
        Err(ApiError::BadRequest(message)) => assert_eq!(message, "runAt must be in the future"),
        other => panic!("unexpected {other:?}"),
    }
    let mut no_attempts = request("no-attempts");
    no_attempts.run_at = Some(u64::MAX);
    no_attempts.max_attempts = 0;
    match plan_create_job(no_attempts) {
        Err(ApiError::BadRequest(message)) => {
            assert_eq!(message, "maxAttempts must be greater than 0")
        }
        other => panic!("unexpected {other:?}"),
    }
    let mut later = request("later");
    later.run_at = Some(u64::MAX);
    let (job, placement) = plan_create_job(later).unwrap();
    assert_eq!(placement, JobPlacement::Schedule);
    assert_eq!(job.state, JobState::Scheduled);
}
