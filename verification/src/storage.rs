//! The rules the Redis-backed store applies: which writes an operation makes
//! from what it read. The store itself is reached by the application.
use vstd::prelude::*;
use vstd::string::StringExecFns;

use crate::idempotency::{IdempotencyRecord, IdempotencyStatus};
use crate::job::{
    copy_optional_text, Job, JobAttempt, JobAttemptStatus, JobId, JobOptions, JobState,
    StateTransitionError, job_from_options, DEFAULT_MAX_ATTEMPTS,
};
use crate::repeat::{interval, spec_next_run_at, RepeatableJob};
use crate::state::spec_can_transition;

verus! {

/// A worker's hold on a job: the job and the token that proves ownership.
#[derive(Debug)]
pub struct JobLease {
    pub job_id: JobId,
    pub token: String,
}

/// A fresh lease token: the text of a new random (version 4) UUID.
pub fn new_lease_token() -> (r: String)
    ensures
        exists|x: u128| r@ == crate::ids::uuid_text(x) && #[trigger] crate::ids::is_v4(x),
{
    let x = crate::ids::new_uuid();
    let r = crate::ids::uuid_string(x);
    assert(r@ == crate::ids::uuid_text(x) && crate::ids::is_v4(x));
    r
}

impl Clone for JobLease {
    fn clone(&self) -> (r: Self)
        ensures
            r == *self,
    {
        JobLease { job_id: self.job_id, token: self.token.clone() }
    }
}

/// Why the store refused an operation.
#[derive(Debug)]
pub enum StorageError {
    /// A scheduled job needs a run time.
    MissingRunAt,
    /// A job was asked to make a change its lifecycle forbids.
    InvalidTransition(StateTransitionError),
    /// The next run of a repeatable job could not be computed; the text says why.
    NextRun(String),
}

/// What the store must do after a leased job has failed.
#[derive(Clone, Copy, Debug, PartialEq, Eq, Structural)]
pub enum FailFollowUp {
    /// Put the job in the delayed set, to be retried at the given time.
    RetryAt(u64),
    /// Put the job back at the end of the waiting list.
    Requeue,
    /// Nothing more.
    Nothing,
}

/// A job whose owner has just started it: active, with one more attempt
/// started and made.
pub open spec fn spec_started(job: Job) -> Job {
    Job {
        state: JobState::Active,
        attempts_started: (job.attempts_started + 1) as u32,
        attempts_made: (job.attempts_made + 1) as u32,
        ..job
    }
}

/// Starting a leased job: refused (`None`) unless the worker still holds its
/// lease; otherwise the job is active with one more attempt started and made.
pub fn start_leased_job(lease_held: bool, job: Job) -> (r: Option<Job>)
    requires
        job.attempts_started < u32::MAX,
        job.attempts_made < u32::MAX,
    ensures
        lease_held ==> r == Some(spec_started(job)),
        !lease_held ==> r is None,
{
    if !lease_held {
        return None;
    }
    let mut job = job;
    job.state = JobState::Active;
    job.attempts_started = job.attempts_started + 1;
    job.attempts_made = job.attempts_made + 1;
    Some(job)
}

/// Completing a leased job: refused unless the worker still holds its lease;
/// otherwise the job is completed.
pub fn complete_leased_job(lease_held: bool, job: Job) -> (r: Option<Job>)
    ensures
        lease_held ==> r == Some(Job { state: JobState::Completed, ..job }),
        !lease_held ==> r is None,
{
    if !lease_held {
        return None;
    }
    let mut job = job;
    job.state = JobState::Completed;
    Some(job)
}

pub open spec fn spec_fail_follow_up(state: JobState, retry_at: u64) -> FailFollowUp {
    match state {
        JobState::Delayed => FailFollowUp::RetryAt(retry_at),
        JobState::Waiting => FailFollowUp::Requeue,
        _ => FailFollowUp::Nothing,
    }
}

/// Ending a leased job without success: refused unless the worker still
/// holds its lease; otherwise the job takes the given state, and a delayed
/// job is set to be retried at `retry_at` while a waiting one is queued again.
pub fn fail_leased_job(lease_held: bool, job: Job, state: JobState, retry_at: u64) -> (r: Option<
    (Job, FailFollowUp),
>)
    ensures
        lease_held ==> r == Some((Job { state, ..job }, spec_fail_follow_up(state, retry_at))),
        !lease_held ==> r is None,
{
    if !lease_held {
        return None;
    }
    let follow_up = match state {
        JobState::Delayed => FailFollowUp::RetryAt(retry_at),
        JobState::Waiting => FailFollowUp::Requeue,
        _ => FailFollowUp::Nothing,
    };
    let mut job = job;
    job.state = state;
    Some((job, follow_up))
}

/// Completing a leased job together with its idempotency key: refused unless
/// the worker still holds its lease; otherwise the job is completed and the
/// key records it as completed, in one step.
pub fn complete_leased_job_with_key(lease_held: bool, job: Job) -> (r: Option<
    (Job, IdempotencyRecord),
>)
    ensures
        lease_held ==> r == Some(
            (
                Job { state: JobState::Completed, ..job },
                IdempotencyRecord { job_id: job.id, status: IdempotencyStatus::Completed },
            ),
        ),
        !lease_held ==> r is None,
{
    if !lease_held {
        return None;
    }
    let id = job.id;
    let mut job = job;
    job.state = JobState::Completed;
    Some((job, IdempotencyRecord { job_id: id, status: IdempotencyStatus::Completed }))
}

/// Renewing a lease: refused unless the lease is still held; otherwise it
/// runs until `lease_until`.
pub fn renew_lease(lease_held: bool, lease_until: u64) -> (r: Option<u64>)
    ensures
        lease_held ==> r == Some(lease_until),
        !lease_held ==> r is None,
{
    if lease_held {
        Some(lease_until)
    } else {
        None
    }
}

/// The time `duration_ms` after `now_ms`: when a lease runs out or a retry is due.
pub fn time_after(now_ms: u64, duration_ms: u64) -> (r: u64)
    requires
        now_ms + duration_ms <= u64::MAX,
    ensures
        r == now_ms + duration_ms,
{
    now_ms + duration_ms
}

pub open spec fn is_due(score: u64, now_ms: u64) -> bool {
    score <= now_ms
}

/// The members of a time-scored set whose time has come: those scored at or
/// before `now_ms`, in their order.
pub fn due_members(entries: &Vec<(String, u64)>, now_ms: u64) -> (r: Vec<String>)
    ensures
        r@.len() <= entries@.len(),
        r@.map_values(|m: String| m@) == entries@.filter(|e: (String, u64)| is_due(e.1, now_ms)).map_values(
            |e: (String, u64)| e.0@,
        ),
{
    let mut r: Vec<String> = Vec::new();
    let mut i: usize = 0;
    while i < entries.len()
        invariant
            i <= entries@.len(),
            r@.len() <= i,
            r@.map_values(|m: String| m@) == entries@.take(i as int).filter(
                |e: (String, u64)| is_due(e.1, now_ms),
            ).map_values(|e: (String, u64)| e.0@),
        decreases entries@.len() - i,
    {
        proof {
            reveal_with_fuel(Seq::<_>::filter, 1);
            assert(entries@.take(i + 1).drop_last() =~= entries@.take(i as int));
        }
        let entry = &entries[i];
        if entry.1 <= now_ms {
            let member = entry.0.clone();
            let ghost before = r@;
            r.push(member);
            assert(r@.map_values(|m: String| m@) =~= before.map_values(|m: String| m@).push(
                entry.0@,
            ));
        }
        i = i + 1;
    }
    assert(entries@.take(entries@.len() as int) =~= entries@);
    r
}

/// Recovering a job whose lease ran out: it waits to be claimed again.
pub fn recover_job(job: Job) -> (r: Job)
    ensures
        r == (Job { state: JobState::Waiting, ..job }),
{
    let mut job = job;
    job.state = JobState::Waiting;
    job
}

/// Promoting a job that has become due (a scheduled or delayed one): it
/// moves to waiting when its lifecycle allows, and otherwise the promotion
/// is refused with the forbidden change.
pub fn promote_job(job: Job) -> (r: Result<Job, StorageError>)
    ensures
        spec_can_transition(job.state, JobState::Waiting) ==> (r matches Ok(j) && j == (Job {
            state: JobState::Waiting,
            ..job
        })),
        !spec_can_transition(job.state, JobState::Waiting) ==> (r matches Err(
            StorageError::InvalidTransition(e),
        ) && e == (StateTransitionError { from: job.state, to: JobState::Waiting })),
{
    let mut job = job;
    match job.transition_to(JobState::Waiting) {
        Ok(()) => Ok(job),
        Err(e) => Err(StorageError::InvalidTransition(e)),
    }
}

/// Whether a job in this state can still be cancelled.
pub open spec fn is_cancellable(state: JobState) -> bool {
    match state {
        JobState::Waiting | JobState::Prioritized | JobState::Delayed | JobState::Scheduled
        | JobState::Active => true,
        JobState::Completed | JobState::Failed | JobState::Cancelled => false,
    }
}

/// Cancelling a job: a job that has not finished becomes cancelled and must
/// leave every queue (the flag is `true`); a finished one is left alone.
pub fn cancel(job: Job) -> (r: (Job, bool))
    ensures
        is_cancellable(job.state) ==> r == (Job { state: JobState::Cancelled, ..job }, true),
        !is_cancellable(job.state) ==> r == (job, false),
{
    match job.state {
        JobState::Waiting | JobState::Prioritized | JobState::Delayed | JobState::Scheduled
        | JobState::Active => {
            let mut job = job;
            job.state = JobState::Cancelled;
            (job, true)
        },
        JobState::Completed | JobState::Failed | JobState::Cancelled => (job, false),
    }
}

/// The queue a job re-enters when it is retried by hand.
pub open spec fn requeue_state(priority: i32) -> JobState {
    if priority > 0 {
        JobState::Prioritized
    } else {
        JobState::Waiting
    }
}

/// Retrying a job by hand: a failed job loses its run time and goes back to
/// the queue its priority gives it, and must be enqueued (the flag is
/// `true`); any other job is left alone.
pub fn retry(job: Job) -> (r: (Job, bool))
    ensures
        job.state == JobState::Failed ==> r == (
            Job { state: requeue_state(job.priority), run_at: None, ..job },
            true,
        ),
        job.state != JobState::Failed ==> r == (job, false),
{
    if job.state != JobState::Failed {
        return (job, false);
    }
    let mut job = job;
    job.state = if job.priority > 0 {
        JobState::Prioritized
    } else {
        JobState::Waiting
    };
    job.run_at = None;
    (job, true)
}

/// The run time a job is scheduled at: a job without one cannot be scheduled.
pub fn scheduled_run_at(job: &Job) -> (r: Result<u64, StorageError>)
    ensures
        job.run_at matches Some(t) ==> (r matches Ok(v) && v == t),
        job.run_at is None ==> r matches Err(StorageError::MissingRunAt),
{
    match job.run_at {
        Some(t) => Ok(t),
        None => Err(StorageError::MissingRunAt),
    }
}

/// The options of a job created for one run of a repeatable job: the
/// default priority, attempts and delay, no idempotency key, run at `run_at`.
pub open spec fn execution_options(run_at: u64) -> JobOptions {
    JobOptions {
        priority: 0,
        max_attempts: DEFAULT_MAX_ATTEMPTS,
        delay_ms: 0,
        run_at: Some(run_at),
        idempotency_key: None,
    }
}

/// The job that runs one occurrence of a repeatable job: its name and
/// payload, scheduled at `run_at`, with a fresh identifier.
pub fn execution_job(repeatable: &RepeatableJob, run_at: u64) -> (r: Job)
    ensures
        r == job_from_options(r.id, repeatable.name, repeatable.payload, execution_options(run_at)),
        r.state == JobState::Scheduled,
        crate::ids::is_v4(r.id.0),
{
    let options = JobOptions {
        priority: 0,
        max_attempts: DEFAULT_MAX_ATTEMPTS,
        delay_ms: 0,
        run_at: Some(run_at),
        idempotency_key: None,
    };
    Job::new(repeatable.name.clone(), repeatable.payload.clone(), options)
}

/// A repeatable job after its run at `previous_run_at`: its next run lies
/// one period later.
pub fn advance_repeatable(repeatable: RepeatableJob, previous_run_at: u64) -> (r: RepeatableJob)
    requires
        previous_run_at + interval(repeatable.schedule) <= u64::MAX,
    ensures
        r == (RepeatableJob {
            next_run_at: Some(spec_next_run_at(repeatable.schedule, previous_run_at as nat) as u64),
            ..repeatable
        }),
{
    let next = repeatable.schedule.next_run_at(previous_run_at);
    let mut repeatable = repeatable;
    repeatable.next_run_at = Some(next);
    repeatable
}

/// Everything the store writes when it creates one run of a repeatable job:
/// the job, the marker that the run exists (kept for `ttl_seconds`), and the
/// repeatable job moved on to its next run.
#[derive(Debug)]
pub struct ExecutionPlan {
    pub job: Job,
    pub job_key: String,
    pub occurrence_key: String,
    pub ttl_seconds: u64,
    pub repeatable_key: String,
    pub advanced: RepeatableJob,
}

/// Plans the run at `run_at` of a repeatable job: a scheduled job with its
/// name and payload, the run's marker, and the repeatable job with its next
/// run one period later. The store creates the run only when the marker is
/// not there yet, so each run is created once.
pub fn plan_execution(repeatable: &RepeatableJob, run_at: u64) -> (r: ExecutionPlan)
    requires
        run_at + interval(repeatable.schedule) <= u64::MAX,
    ensures
        r.job == job_from_options(r.job.id, repeatable.name, repeatable.payload, execution_options(run_at)),
        r.job.state == JobState::Scheduled,
        crate::ids::is_v4(r.job.id.0),
        r.job_key@ == crate::keys::spec_job_key(r.job.id),
        r.occurrence_key@ == crate::keys::spec_occurrence_key(repeatable.id, run_at),
        r.ttl_seconds == crate::keys::OCCURRENCE_TTL_SECONDS,
        r.repeatable_key@ == crate::keys::spec_repeat_key(repeatable.id),
        r.advanced == (RepeatableJob {
            next_run_at: Some(spec_next_run_at(repeatable.schedule, run_at as nat) as u64),
            ..*repeatable
        }),
{
    let job = execution_job(repeatable, run_at);
    let job_key = crate::keys::job_key(job.id);
    ExecutionPlan {
        job,
        job_key,
        occurrence_key: crate::keys::occurrence_key(repeatable.id, run_at),
        ttl_seconds: crate::keys::OCCURRENCE_TTL_SECONDS,
        repeatable_key: crate::keys::repeat_key(repeatable.id),
        advanced: advance_repeatable(repeatable.clone(), run_at),
    }
}

/// What saving a repeatable job gives when computing its next run from now
/// gave `next`: a job that has a next run keeps it, one without gets the
/// computed run, and the computation's error fails the save.
pub open spec fn saves(
    repeatable: RepeatableJob,
    next: Result<u64, String>,
    r: Result<RepeatableJob, StorageError>,
) -> bool {
    &&& repeatable.next_run_at is Some ==> r == Ok::<RepeatableJob, StorageError>(repeatable)
    &&& repeatable.next_run_at is None ==> match next {
        Ok(t) => r == Ok::<RepeatableJob, StorageError>(
            RepeatableJob { next_run_at: Some(t), ..repeatable },
        ),
        Err(m) => r matches Err(StorageError::NextRun(e)) && e == m,
    }
}

/// A repeatable job as it is saved, given what computing its next run from
/// now gave (used only when it has none): a job that has a next run keeps
/// it, one without gets the computed run, and the computation's error fails
/// the save.
pub fn with_next_run_from(repeatable: RepeatableJob, next: Result<u64, String>) -> (r: Result<
    RepeatableJob,
    StorageError,
>)
    ensures
        saves(repeatable, next, r),
{
    if repeatable.next_run_at.is_some() {
        return Ok(repeatable);
    }
    match next {
        Ok(t) => {
            let mut repeatable = repeatable;
            repeatable.next_run_at = Some(t);
            Ok(repeatable)
        },
        Err(message) => Err(StorageError::NextRun(message)),
    }
}

/// A repeatable job as it is saved: one without a next run gets one, a
/// period from now by the system clock; one that has it keeps it. Fails
/// only when the next run cannot be computed.
pub fn with_next_run(repeatable: RepeatableJob) -> (r: Result<RepeatableJob, StorageError>)
    ensures
        repeatable.next_run_at is Some ==> r == Ok::<RepeatableJob, StorageError>(repeatable),
        r matches Ok(j) ==> j == (RepeatableJob { next_run_at: j.next_run_at, ..repeatable })
            && (j.next_run_at matches Some(t) && (repeatable.next_run_at is None ==> t >= interval(
            repeatable.schedule,
        ))),
        r matches Err(e) ==> repeatable.next_run_at is None && (e matches StorageError::NextRun(m)
            && (m@ == crate::repeat::next_run_overflow_message() || exists|detail: Seq<char>|
            m@ == crate::repeat::clock_error_message(detail))),
        interval(repeatable.schedule) == 0 ==> (r matches Err(e) ==> (e matches StorageError::NextRun(
            m,
        ) && exists|detail: Seq<char>| m@ == crate::repeat::clock_error_message(detail))),
        exists|clock: Result<u64, String>, next: Result<u64, String>|
            crate::repeat::from_clock(repeatable.schedule, clock, next) && saves(
                repeatable,
                next,
                r,
            ),
{
    if repeatable.next_run_at.is_some() {
        let ghost next = Ok::<u64, String>(interval(repeatable.schedule) as u64);
        assert(crate::repeat::from_clock(repeatable.schedule, Ok(0u64), next));
        assert(saves(repeatable, next, Ok(repeatable)));
        return Ok(repeatable);
    }
    let next = repeatable.schedule.next_run_at_from_now();
    let ghost computed = next;
    let r = with_next_run_from(repeatable, next);
    assert(saves(repeatable, computed, r));
    r
}

/// The score under which a saved repeatable job enters the schedule: its
/// next run when it is enabled; a disabled job stays out of the schedule.
pub fn schedule_score(repeatable: &RepeatableJob) -> (r: Option<u64>)
    ensures
        repeatable.enabled ==> r == repeatable.next_run_at,
        !repeatable.enabled ==> r is None,
{
    if repeatable.enabled {
        repeatable.next_run_at
    } else {
        None
    }
}

/// A repeatable job that no longer runs.
pub fn disable_repeatable(repeatable: RepeatableJob) -> (r: RepeatableJob)
    ensures
        r == (RepeatableJob { enabled: false, ..repeatable }),
{
    let mut repeatable = repeatable;
    repeatable.enabled = false;
    repeatable
}

/// The record of an attempt that has just begun.
pub fn begin_attempt(number: u32, started_at: u64) -> (r: JobAttempt)
    ensures
        r == (JobAttempt {
            attempt: number,
            started_at,
            finished_at: None,
            status: JobAttemptStatus::Running,
            error: None,
        }),
{
    JobAttempt {
        attempt: number,
        started_at,
        finished_at: None,
        status: JobAttemptStatus::Running,
        error: None,
    }
}

/// The record of an attempt once it has ended at `finished_at`.
pub fn finish_attempt(
    attempt: JobAttempt,
    finished_at: u64,
    status: JobAttemptStatus,
    error: Option<String>,
) -> (r: JobAttempt)
    ensures
        r == (JobAttempt { finished_at: Some(finished_at), status, error, ..attempt }),
{
    let mut attempt = attempt;
    attempt.finished_at = Some(finished_at);
    attempt.status = status;
    attempt.error = error;
    attempt
}

/// The numbers of the attempts a job has started: 1 up to its count.
pub fn attempt_numbers(job: &Job) -> (r: Vec<u32>)
    ensures
        r@.len() == job.attempts_started,
        forall|i: int| 0 <= i < r@.len() ==> #[trigger] r@[i] == i + 1,
{
    let mut r: Vec<u32> = Vec::new();
    let mut n: u32 = 0;
    while n < job.attempts_started
        invariant
            n <= job.attempts_started,
            r@.len() == n,
            forall|i: int| 0 <= i < r@.len() ==> #[trigger] r@[i] == i + 1,
        decreases job.attempts_started - n,
    {
        n = n + 1;
        r.push(n);
    }
    r
}

pub open spec fn spec_state_name(state: JobState) -> Seq<char> {
    match state {
        JobState::Waiting => "Waiting"@,
        JobState::Prioritized => "Prioritized"@,
        JobState::Scheduled => "Scheduled"@,
        JobState::Delayed => "Delayed"@,
        JobState::Active => "Active"@,
        JobState::Completed => "Completed"@,
        JobState::Failed => "Failed"@,
        JobState::Cancelled => "Cancelled"@,
    }
}

/// The name a state is stored and shown under: the name of its variant.
pub fn state_name(state: JobState) -> (r: String)
    ensures
        r@ == spec_state_name(state),
{
    match state {
        JobState::Waiting => String::from_str("Waiting"),
        JobState::Prioritized => String::from_str("Prioritized"),
        JobState::Scheduled => String::from_str("Scheduled"),
        JobState::Delayed => String::from_str("Delayed"),
        JobState::Active => String::from_str("Active"),
        JobState::Completed => String::from_str("Completed"),
        JobState::Failed => String::from_str("Failed"),
        JobState::Cancelled => String::from_str("Cancelled"),
    }
}

/// A job whose lease ran out is put back as waiting, and a waiting job can
/// be started again: a job is run at least once even when a worker stops.
pub proof fn lemma_recovered_job_can_run_again(job: Job)
    ensures
        spec_can_transition((Job { state: JobState::Waiting, ..job }).state, JobState::Active),
{
}

/// A cancelled job stays cancelled: cancelling it again changes nothing, and
/// no step of the lifecycle leads out of it.
pub proof fn lemma_cancel_is_final(next: JobState)
    ensures
        !is_cancellable(JobState::Cancelled),
        !spec_can_transition(JobState::Cancelled, next),
{
}

/// A retried job is queued again: it can be started, and retrying it a second
/// time before it fails again changes nothing.
pub proof fn lemma_retry_requeues(priority: i32)
    ensures
        requeue_state(priority) != JobState::Failed,
        spec_can_transition(requeue_state(priority), JobState::Active),
{
}

/// Each state shows under its own variant name, so different states show
/// differently.
pub proof fn lemma_state_names(a: JobState, b: JobState)
    ensures
        spec_state_name(JobState::Waiting) == "Waiting"@,
        spec_state_name(JobState::Prioritized) == "Prioritized"@,
        spec_state_name(JobState::Scheduled) == "Scheduled"@,
        spec_state_name(JobState::Delayed) == "Delayed"@,
        spec_state_name(JobState::Active) == "Active"@,
        spec_state_name(JobState::Completed) == "Completed"@,
        spec_state_name(JobState::Failed) == "Failed"@,
        spec_state_name(JobState::Cancelled) == "Cancelled"@,
        a != b ==> spec_state_name(a) != spec_state_name(b),
{
    reveal_strlit("Waiting");
    reveal_strlit("Prioritized");
    reveal_strlit("Scheduled");
    reveal_strlit("Delayed");
    reveal_strlit("Active");
    reveal_strlit("Completed");
    reveal_strlit("Failed");
    reveal_strlit("Cancelled");
    if a != b {
        let x = spec_state_name(a);
        let y = spec_state_name(b);
        if x.len() == y.len() {
            assert(x[0] != y[0] || x[1] != y[1]);
        }
    }
}

} // verus!
