//! The HTTP API's rules: request validation, error answers and the shape of
//! responses. The application serves them.
use vstd::prelude::*;
use vstd::string::StringExecFns;

use crate::ids::{parse_job_id, parse_repeatable_id, uuid_parse, uuid_string, uuid_text};
use crate::job::{
    copy_optional_text, job_from_options, Job, JobAttempt, JobAttemptStatus, JobId, JobOptions,
    JobState, DEFAULT_MAX_ATTEMPTS,
};
use crate::listing::JobPage;
use crate::repeat::{RepeatSchedule, RepeatableJob, RepeatableJobId};
use crate::storage::{spec_state_name, state_name};

verus! {

/// An error answer, by kind; the text is the message shown.
#[derive(Debug)]
pub enum ApiError {
    BadRequest(String),
    Unauthorized(String),
    Forbidden(String),
    NotFound(String),
    Conflict(String),
    UnprocessableEntity(String),
    Internal(String),
}

/// The body of an error answer.
#[derive(Debug)]
pub struct ErrorBody {
    pub code: String,
    pub message: String,
}

/// An error answer as sent.
#[derive(Debug)]
pub struct ErrorResponse {
    pub error: ErrorBody,
}

/// The answer to a health or readiness check.
#[derive(Debug)]
pub struct HealthResponse {
    pub status: String,
}

/// A job as the API shows it.
#[derive(Debug)]
pub struct JobResponse {
    pub id: String,
    pub name: String,
    pub state: String,
    pub attempts_made: u32,
    pub attempts_started: u32,
    pub run_at: Option<u64>,
}

/// A page of jobs as the API shows it.
#[derive(Debug)]
pub struct JobPageResponse {
    pub jobs: Vec<JobResponse>,
    pub next_cursor: Option<String>,
    pub has_more: bool,
}

/// An attempt as the API shows it.
#[derive(Debug)]
pub struct JobAttemptResponse {
    pub attempt: u32,
    pub started_at: u64,
    pub finished_at: Option<u64>,
    pub status: String,
    pub error: Option<String>,
}

/// A job's attempts as the API shows them.
#[derive(Debug)]
pub struct JobAttemptsResponse {
    pub attempts: Vec<JobAttemptResponse>,
}

/// The sizes of a queue's lists.
#[derive(Clone, Copy, Debug, PartialEq, Eq, Structural)]
pub struct QueueStats {
    pub waiting: u64,
    pub active: u64,
    pub delayed: u64,
    pub scheduled: u64,
    pub processing: u64,
}

/// A queue as the API shows it.
#[derive(Debug)]
pub struct QueueResponse {
    pub name: String,
    pub waiting: u64,
    pub active: u64,
    pub delayed: u64,
    pub scheduled: u64,
    pub processing: u64,
}

/// The queues as the API shows them.
#[derive(Debug)]
pub struct QueuesResponse {
    pub queues: Vec<QueueResponse>,
}

/// A request to create a job.
#[derive(Debug)]
pub struct CreateJobRequest {
    pub name: String,
    pub payload: serde_json::Value,
    pub priority: i32,
    pub max_attempts: u32,
    pub delay_ms: u64,
    pub run_at: Option<u64>,
    pub idempotency_key: Option<String>,
}

/// The query of a job listing.
#[derive(Debug)]
pub struct ListJobsQuery {
    pub limit: usize,
    pub cursor: Option<String>,
    pub state: Option<JobState>,
}

/// A request to create a repeatable job.
#[derive(Debug)]
pub struct CreateRepeatableJobRequest {
    pub name: String,
    pub payload: serde_json::Value,
    pub schedule: RepeatSchedule,
}

/// A repeatable job as the API shows it.
#[derive(Debug)]
pub struct RepeatableJobResponse {
    pub id: String,
    pub name: String,
    pub payload: serde_json::Value,
    pub schedule: RepeatSchedule,
    pub enabled: bool,
    pub next_run_at: Option<u64>,
}

/// Repeatable jobs as the API shows them.
#[derive(Debug)]
pub struct RepeatableJobsResponse {
    pub jobs: Vec<RepeatableJobResponse>,
}

/// Where a newly created job goes.
#[derive(Clone, Copy, Debug, PartialEq, Eq, Structural)]
pub enum JobPlacement {
    /// Into the scheduled set, at its run time.
    Schedule,
    /// Into the delayed set, after its delay.
    Delay,
    /// Straight into the waiting list.
    Enqueue,
}

/// The only queue there is.
pub const DEFAULT_QUEUE: &'static str = "default";

/// The page size of a listing that names none.
pub fn default_limit() -> (r: usize)
    ensures
        r == 20,
{
    20
}

/// The attempts of a job whose request names none.
pub fn default_max_attempts() -> (r: u32)
    ensures
        r == DEFAULT_MAX_ATTEMPTS,
{
    DEFAULT_MAX_ATTEMPTS
}

pub open spec fn spec_status(error: ApiError) -> u16 {
    match error {
        ApiError::BadRequest(_) => 400,
        ApiError::Unauthorized(_) => 401,
        ApiError::Forbidden(_) => 403,
        ApiError::NotFound(_) => 404,
        ApiError::Conflict(_) => 409,
        ApiError::UnprocessableEntity(_) => 422,
        ApiError::Internal(_) => 500,
    }
}

pub open spec fn spec_code(error: ApiError) -> Seq<char> {
    match error {
        ApiError::BadRequest(_) => "BAD_REQUEST"@,
        ApiError::Unauthorized(_) => "UNAUTHORIZED"@,
        ApiError::Forbidden(_) => "FORBIDDEN"@,
        ApiError::NotFound(_) => "NOT_FOUND"@,
        ApiError::Conflict(_) => "CONFLICT"@,
        ApiError::UnprocessableEntity(_) => "UNPROCESSABLE_ENTITY"@,
        ApiError::Internal(_) => "INTERNAL_SERVER_ERROR"@,
    }
}

/// The message shown: the error's own, except that an internal error shows
/// a fixed text and keeps its details to the server.
pub open spec fn spec_message(error: ApiError) -> Seq<char> {
    match error {
        ApiError::BadRequest(m) => m@,
        ApiError::Unauthorized(m) => m@,
        ApiError::Forbidden(m) => m@,
        ApiError::NotFound(m) => m@,
        ApiError::Conflict(m) => m@,
        ApiError::UnprocessableEntity(m) => m@,
        ApiError::Internal(_) => "internal server error"@,
    }
}

impl ApiError {
    /// The HTTP status and the body of the answer to this error.
    pub fn to_response(self) -> (r: (u16, ErrorResponse))
        ensures
            r.0 == spec_status(self),
            r.1.error.code@ == spec_code(self),
            r.1.error.message@ == spec_message(self),
    {
        let (status, code, message) = match self {
            ApiError::BadRequest(message) => (400, "BAD_REQUEST", message),
            ApiError::Unauthorized(message) => (401, "UNAUTHORIZED", message),
            ApiError::Forbidden(message) => (403, "FORBIDDEN", message),
            ApiError::NotFound(message) => (404, "NOT_FOUND", message),
            ApiError::Conflict(message) => (409, "CONFLICT", message),
            ApiError::UnprocessableEntity(message) => (
                422,
                "UNPROCESSABLE_ENTITY",
                message,
            ),
            ApiError::Internal(_) => (
                500,
                "INTERNAL_SERVER_ERROR",
                String::from_str("internal server error"),
            ),
        };
        (status, ErrorResponse { error: ErrorBody { code: String::from_str(code), message } })
    }
}

impl HealthResponse {
    /// The answer of a live server.
    pub fn ok() -> (r: Self)
        ensures
            r.status@ == "ok"@,
    {
        HealthResponse { status: String::from_str("ok") }
    }

    /// The answer of a server whose store answers.
    pub fn ready() -> (r: Self)
        ensures
            r.status@ == "ready"@,
    {
        HealthResponse { status: String::from_str("ready") }
    }
}

/// The options a creation request gives its job.
pub open spec fn request_options(request: CreateJobRequest) -> JobOptions {
    JobOptions {
        priority: request.priority,
        max_attempts: request.max_attempts,
        delay_ms: request.delay_ms,
        run_at: request.run_at,
        idempotency_key: request.idempotency_key,
    }
}

/// Where a new job with these options goes: a job with a run time is
/// scheduled, one with a delay is delayed, any other is enqueued.
pub open spec fn spec_placement(options: JobOptions) -> JobPlacement {
    if options.run_at is Some {
        JobPlacement::Schedule
    } else if options.delay_ms > 0 {
        JobPlacement::Delay
    } else {
        JobPlacement::Enqueue
    }
}

pub open spec fn past_run_at_message() -> Seq<char> {
    "runAt must be in the future"@
}

pub open spec fn zero_attempts_message() -> Seq<char> {
    "maxAttempts must be greater than 0"@
}

pub open spec fn clock_message(detail: Seq<char>) -> Seq<char> {
    "failed to read system clock: "@ + detail
}

/// What a creation request gives when the clock, if read, gave `clock`:
/// a run time must lie after the time read and a job needs at least one
/// attempt; a clock error is an internal error.
pub open spec fn creates(
    request: CreateJobRequest,
    clock: Result<u64, String>,
    r: Result<(Job, JobPlacement), ApiError>,
) -> bool {
    let options = request_options(request);
    match request.run_at {
        Some(t) => match clock {
            Err(detail) => r matches Err(ApiError::Internal(m)) && m@ == clock_message(
                detail@,
            ),
            Ok(now) => if t <= now {
                r matches Err(ApiError::BadRequest(m)) && m@ == past_run_at_message()
            } else if request.max_attempts == 0 {
                r matches Err(ApiError::BadRequest(m)) && m@ == zero_attempts_message()
            } else {
                r matches Ok((job, placement)) && job == job_from_options(
                    job.id,
                    request.name,
                    request.payload,
                    options,
                ) && placement == spec_placement(options)
            },
        },
        None => if request.max_attempts == 0 {
            r matches Err(ApiError::BadRequest(m)) && m@ == zero_attempts_message()
        } else {
            r matches Ok((job, placement)) && job == job_from_options(
                job.id,
                request.name,
                request.payload,
                options,
            ) && placement == spec_placement(options)
        },
    }
}

/// Validates a creation request against the time `clock` gives (read only
/// when the request names a run time) and builds its job: a run time must
/// lie in the future and a job needs at least one attempt.
pub fn plan_create_job_at(request: CreateJobRequest, clock: Result<u64, String>) -> (r: Result<
    (Job, JobPlacement),
    ApiError,
>)
    ensures
        r matches Ok((job, _)) ==> crate::ids::is_v4(job.id.0),
        creates(request, clock, r),
{
    if let Some(run_at) = request.run_at {
        match clock {
            Err(detail) => {
                let message = String::from_str("failed to read system clock: ").concat(
                    detail.as_str(),
                );
                proof {
                    reveal_strlit("failed to read system clock: ");
                    assert(message@ =~= clock_message(detail@));
                }
                return Err(ApiError::Internal(message));
            },
            Ok(now) => {
                if run_at <= now {
                    return Err(ApiError::BadRequest(String::from_str("runAt must be in the future")));
                }
            },
        }
    }
    if request.max_attempts == 0 {
        return Err(ApiError::BadRequest(String::from_str("maxAttempts must be greater than 0")));
    }
    let options = JobOptions {
        priority: request.priority,
        max_attempts: request.max_attempts,
        delay_ms: request.delay_ms,
        run_at: request.run_at,
        idempotency_key: request.idempotency_key,
    };
    let placement = if options.run_at.is_some() {
        JobPlacement::Schedule
    } else if options.delay_ms > 0 {
        JobPlacement::Delay
    } else {
        JobPlacement::Enqueue
    };
    let job = Job::new(request.name, request.payload, options);
    Ok((job, placement))
}

/// Validates a creation request against the current time and builds its
/// job. The clock is read only for a request with a run time; without one,
/// the request fails exactly when it asks for no attempts.
pub fn plan_create_job(request: CreateJobRequest) -> (r: Result<(Job, JobPlacement), ApiError>)
    ensures
        request.run_at is None && request.max_attempts == 0 ==> (r matches Err(
            ApiError::BadRequest(m),
        ) && m@ == zero_attempts_message()),
        request.run_at is None && request.max_attempts > 0 ==> (r matches Ok((job, placement))
            && job == job_from_options(
            job.id,
            request.name,
            request.payload,
            request_options(request),
        ) && placement == spec_placement(request_options(request))),
        r matches Ok((job, placement)) ==> job == job_from_options(
            job.id,
            request.name,
            request.payload,
            request_options(request),
        ) && placement == spec_placement(request_options(request)),
        r matches Ok((job, _)) ==> crate::ids::is_v4(job.id.0),
        request.max_attempts == 0 ==> r is Err,
        request.run_at == Some(0u64) ==> ((r matches Err(ApiError::BadRequest(m)) && m@
            == past_run_at_message()) || (r matches Err(ApiError::Internal(m)) && exists|
            detail: Seq<char>,
        | m@ == clock_message(detail))),
        exists|clock: Result<u64, String>| creates(request, clock, r),
{
    let clock = if request.run_at.is_some() {
        crate::clock::unix_time_ms()
    } else {
        Ok(0)
    };
    let ghost read = clock;
    let r = plan_create_job_at(request, clock);
    assert(creates(request, read, r));
    r
}

/// Whether a response shows a job: its id's text, its name, its state's
/// name, its attempt counts and its run time.
pub open spec fn shows_job(r: JobResponse, job: Job) -> bool {
    &&& r.id@ == uuid_text(job.id.0)
    &&& r.name == job.name
    &&& r.state@ == spec_state_name(job.state)
    &&& r.attempts_made == job.attempts_made
    &&& r.attempts_started == job.attempts_started
    &&& r.run_at == job.run_at
}

/// A job as the API shows it.
pub fn job_response(job: &Job) -> (r: JobResponse)
    ensures
        shows_job(r, *job),
{
    JobResponse {
        id: uuid_string(job.id.0),
        name: job.name.clone(),
        state: state_name(job.state),
        attempts_made: job.attempts_made,
        attempts_started: job.attempts_started,
        run_at: job.run_at,
    }
}

/// A page of jobs as the API shows it.
pub fn page_response(page: JobPage) -> (r: JobPageResponse)
    ensures
        r.jobs@.len() == page.jobs@.len(),
        forall|i: int| 0 <= i < r.jobs@.len() ==> shows_job(#[trigger] r.jobs@[i], page.jobs@[i]),
        r.next_cursor == page.next_cursor,
        r.has_more == page.has_more,
{
    let mut jobs: Vec<JobResponse> = Vec::new();
    let mut i: usize = 0;
    while i < page.jobs.len()
        invariant
            i <= page.jobs@.len(),
            jobs@.len() == i,
            forall|k: int| 0 <= k < i ==> shows_job(#[trigger] jobs@[k], page.jobs@[k]),
        decreases page.jobs@.len() - i,
    {
        jobs.push(job_response(&page.jobs[i]));
        i = i + 1;
    }
    JobPageResponse { jobs, next_cursor: page.next_cursor, has_more: page.has_more }
}

pub open spec fn spec_attempt_status_name(status: JobAttemptStatus) -> Seq<char> {
    match status {
        JobAttemptStatus::Running => "Running"@,
        JobAttemptStatus::Completed => "Completed"@,
        JobAttemptStatus::Failed => "Failed"@,
    }
}

/// Whether a response shows an attempt: its fields, with its status's name.
pub open spec fn shows_attempt(r: JobAttemptResponse, attempt: JobAttempt) -> bool {
    &&& r.attempt == attempt.attempt
    &&& r.started_at == attempt.started_at
    &&& r.finished_at == attempt.finished_at
    &&& r.status@ == spec_attempt_status_name(attempt.status)
    &&& r.error == attempt.error
}

/// An attempt as the API shows it.
pub fn attempt_response(attempt: &JobAttempt) -> (r: JobAttemptResponse)
    ensures
        shows_attempt(r, *attempt),
{
    let status = match attempt.status {
        JobAttemptStatus::Running => String::from_str("Running"),
        JobAttemptStatus::Completed => String::from_str("Completed"),
        JobAttemptStatus::Failed => String::from_str("Failed"),
    };
    JobAttemptResponse {
        attempt: attempt.attempt,
        started_at: attempt.started_at,
        finished_at: attempt.finished_at,
        status,
        error: copy_optional_text(&attempt.error),
    }
}

/// A job's attempts as the API shows them, in order.
pub fn attempts_response(attempts: &Vec<JobAttempt>) -> (r: JobAttemptsResponse)
    ensures
        r.attempts@.len() == attempts@.len(),
        forall|i: int|
            0 <= i < r.attempts@.len() ==> shows_attempt(#[trigger] r.attempts@[i], attempts@[i]),
{
    let mut out: Vec<JobAttemptResponse> = Vec::new();
    let mut i: usize = 0;
    while i < attempts.len()
        invariant
            i <= attempts@.len(),
            out@.len() == i,
            forall|k: int| 0 <= k < i ==> shows_attempt(#[trigger] out@[k], attempts@[k]),
        decreases attempts@.len() - i,
    {
        out.push(attempt_response(&attempts[i]));
        i = i + 1;
    }
    JobAttemptsResponse { attempts: out }
}

/// Whether a response shows a queue: its name and its counts.
pub open spec fn shows_queue(r: QueueResponse, name: Seq<char>, stats: QueueStats) -> bool {
    &&& r.name@ == name
    &&& r.waiting == stats.waiting
    &&& r.active == stats.active
    &&& r.delayed == stats.delayed
    &&& r.scheduled == stats.scheduled
    &&& r.processing == stats.processing
}

/// A queue as the API shows it.
pub fn queue_response(name: String, stats: QueueStats) -> (r: QueueResponse)
    ensures
        r.name == name,
        shows_queue(r, name@, stats),
{
    QueueResponse {
        name,
        waiting: stats.waiting,
        active: stats.active,
        delayed: stats.delayed,
        scheduled: stats.scheduled,
        processing: stats.processing,
    }
}

/// All queues as the API shows them: the default queue alone.
pub fn queues_response(stats: QueueStats) -> (r: QueuesResponse)
    ensures
        r.queues@.len() == 1,
        shows_queue(r.queues@[0], DEFAULT_QUEUE@, stats),
{
    let mut queues: Vec<QueueResponse> = Vec::new();
    queues.push(queue_response(String::from_str(DEFAULT_QUEUE), stats));
    QueuesResponse { queues }
}

/// Only the default queue exists; any other name is not found.
pub fn check_queue_name(name: &str) -> (r: Result<(), ApiError>)
    ensures
        name@ == DEFAULT_QUEUE@ ==> r is Ok,
        name@ != DEFAULT_QUEUE@ ==> (r matches Err(ApiError::NotFound(m)) && m@
            == "queue not found"@),
{
    if crate::text::same_text(name, DEFAULT_QUEUE) {
        Ok(())
    } else {
        Err(ApiError::NotFound(String::from_str("queue not found")))
    }
}

/// Reads a job id from a path: a text that is not a UUID is a bad request.
pub fn job_id_from_path(text: &str) -> (r: Result<JobId, ApiError>)
    ensures
        uuid_parse(text@) matches Some(x) ==> r == Ok::<JobId, ApiError>(JobId(x)),
        uuid_parse(text@) is None ==> (r matches Err(ApiError::BadRequest(m)) && m@
            == "invalid job id"@),
{
    match parse_job_id(text) {
        Some(id) => Ok(id),
        None => Err(ApiError::BadRequest(String::from_str("invalid job id"))),
    }
}

/// Reads a repeatable job id from a path: a text that is not a UUID is a
/// bad request.
pub fn repeatable_id_from_path(text: &str) -> (r: Result<RepeatableJobId, ApiError>)
    ensures
        uuid_parse(text@) matches Some(x) ==> r == Ok::<RepeatableJobId, ApiError>(
            RepeatableJobId(x),
        ),
        uuid_parse(text@) is None ==> (r matches Err(ApiError::BadRequest(m)) && m@
            == "invalid repeatable job id"@),
{
    match parse_repeatable_id(text) {
        Some(id) => Ok(id),
        None => Err(ApiError::BadRequest(String::from_str("invalid repeatable job id"))),
    }
}

/// A job that was looked up: a missing one is not found.
pub fn found_job(job: Option<Job>) -> (r: Result<Job, ApiError>)
    ensures
        job matches Some(j) ==> r == Ok::<Job, ApiError>(j),
        job is None ==> (r matches Err(ApiError::NotFound(m)) && m@ == "job not found"@),
{
    match job {
        Some(j) => Ok(j),
        None => Err(ApiError::NotFound(String::from_str("job not found"))),
    }
}

/// A repeatable job that was looked up: a missing one is not found.
pub fn found_repeatable(job: Option<RepeatableJob>) -> (r: Result<RepeatableJob, ApiError>)
    ensures
        job matches Some(j) ==> r == Ok::<RepeatableJob, ApiError>(j),
        job is None ==> (r matches Err(ApiError::NotFound(m)) && m@
            == "repeatable job not found"@),
{
    match job {
        Some(j) => Ok(j),
        None => Err(ApiError::NotFound(String::from_str("repeatable job not found"))),
    }
}

/// The repeatable job a creation request asks for: enabled, with a fresh
/// id and no run planned yet.
pub fn repeatable_from_request(request: CreateRepeatableJobRequest) -> (r: RepeatableJob)
    ensures
        r.name == request.name,
        r.payload == request.payload,
        r.schedule == request.schedule,
        r.enabled,
        r.next_run_at is None,
        crate::ids::is_v4(r.id.0),
{
    RepeatableJob::new(request.name, request.payload, request.schedule)
}

/// Whether a response shows a repeatable job: its id's text and its fields.
pub open spec fn shows_repeatable(r: RepeatableJobResponse, job: RepeatableJob) -> bool {
    &&& r.id@ == uuid_text(job.id.0)
    &&& r.name == job.name
    &&& r.payload == job.payload
    &&& r.schedule == job.schedule
    &&& r.enabled == job.enabled
    &&& r.next_run_at == job.next_run_at
}

impl RepeatableJobResponse {
    /// A repeatable job as the API shows it.
    pub fn from_job(job: RepeatableJob) -> (r: Self)
        ensures
            shows_repeatable(r, job),
    {
        RepeatableJobResponse {
            id: uuid_string(job.id.0),
            name: job.name,
            payload: job.payload,
            schedule: job.schedule,
            enabled: job.enabled,
            next_run_at: job.next_run_at,
        }
    }
}

/// Repeatable jobs as the API shows them, in order.
pub fn repeatable_jobs_response(jobs: Vec<RepeatableJob>) -> (r: RepeatableJobsResponse)
    ensures
        r.jobs@.len() == jobs@.len(),
        forall|i: int| 0 <= i < r.jobs@.len() ==> shows_repeatable(#[trigger] r.jobs@[i], jobs@[i]),
{
    let mut out: Vec<RepeatableJobResponse> = Vec::new();
    let mut i: usize = 0;
    while i < jobs.len()
        invariant
            i <= jobs@.len(),
            out@.len() == i,
            forall|k: int| 0 <= k < i ==> shows_repeatable(#[trigger] out@[k], jobs@[k]),
        decreases jobs@.len() - i,
    {
        out.push(RepeatableJobResponse::from_job(jobs[i].clone()));
        i = i + 1;
    }
    RepeatableJobsResponse { jobs: out }
}

} // verus!
