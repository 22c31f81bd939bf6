//! The worker: its configuration and the protocol of one run, which claims
//! a job, settles its idempotency key, runs the handler and records the
//! outcome. The protocol is a state machine; the application performs each
//! action it asks for and reports what came of it.
use vstd::prelude::*;
use vstd::string::StringExecFns;

use crate::idempotency::IdempotencyState;
use crate::job::{spec_retry_delay_ms, Job, JobAttempt, JobAttemptStatus, JobId, JobState};
use crate::repeat::RepeatableJob;
use crate::storage::{begin_attempt, JobLease};

verus! {

/// How long a claimed job's lease lasts, and how long each renewal extends it.
pub const LEASE_MS: u64 = 30_000;

/// How often a running job's lease is renewed.
pub const HEARTBEAT_EVERY_MS: u64 = 5_000;

/// A pool of workers.
#[derive(Clone, Debug)]
pub struct Worker {
    concurrency: usize,
}

/// Why a worker pool could not be built.
#[derive(Clone, Copy, Debug, PartialEq, Eq, Structural)]
pub enum WorkerConfigError {
    /// A pool needs at least one worker.
    ZeroConcurrency,
}

impl WorkerConfigError {
    /// The error's text.
    pub fn message(&self) -> (r: String)
        ensures
            r@ == "worker concurrency must be greater than zero"@,
    {
        match self {
            WorkerConfigError::ZeroConcurrency => String::from_str(
                "worker concurrency must be greater than zero",
            ),
        }
    }
}

impl Worker {
    pub closed spec fn spec_concurrency(&self) -> usize {
        self.concurrency
    }

    /// A pool of `concurrency` workers; refused when that is zero.
    pub fn new(concurrency: usize) -> (r: Result<Worker, WorkerConfigError>)
        ensures
            concurrency == 0 ==> r == Err::<Worker, WorkerConfigError>(
                WorkerConfigError::ZeroConcurrency,
            ),
            concurrency > 0 ==> (r matches Ok(w) && w.spec_concurrency() == concurrency),
    {
        if concurrency == 0 {
            return Err(WorkerConfigError::ZeroConcurrency);
        }
        Ok(Worker { concurrency })
    }

    /// The number of workers in the pool.
    pub fn concurrency(&self) -> (r: usize)
        ensures
            r == self.spec_concurrency(),
    {
        self.concurrency
    }
}

/// Where a run stands: each phase but the first and the last waits for the
/// report of one action.
#[derive(Clone, Copy, Debug, PartialEq, Eq, Structural)]
pub enum RunPhase {
    Claiming,
    AwaitClaim,
    AwaitHeartbeat,
    AwaitJob,
    AwaitRelease,
    AwaitStart,
    AwaitKeyState,
    AwaitKeyClaim,
    AwaitDuplicateSettled,
    AwaitStartClock,
    AwaitAttemptRecorded,
    AwaitExecution,
    AwaitHeartbeatStopped,
    AwaitAttemptFinished,
    AwaitRetryClock,
    AwaitSettled,
    Done,
}

/// What the application reports back.
#[derive(Debug)]
pub enum RunEvent {
    /// The run begins.
    Begin,
    /// A job was claimed under this lease.
    Claimed(JobLease),
    /// The lease is being renewed in the background.
    HeartbeatStarted,
    /// The claimed job as stored, if it exists.
    Loaded(Option<Job>),
    /// The lease of a missing job was given up.
    Released,
    /// Whether the store let the worker start the job.
    Started(bool),
    /// What the store holds under the job's idempotency key.
    KeyState(IdempotencyState),
    /// Whether the store let the job claim its idempotency key.
    KeyClaimed(bool),
    /// The current time, in milliseconds since the UNIX epoch.
    Clock(u64),
    /// An attempt record was written.
    Recorded,
    /// What the handler returned.
    Executed(Result<(), String>),
    /// The lease is no longer being renewed.
    HeartbeatStopped,
    /// Whether the store accepted the job's final change.
    Settled(bool),
}

/// What the application is asked to do next.
#[derive(Debug)]
pub enum RunAction {
    /// Wait for a job and claim it with a lease of this length.
    Claim { lease_ms: u64 },
    /// Renew the lease every `every_ms` for `lease_ms` more, until told to stop.
    StartHeartbeat { job_id: JobId, token: String, every_ms: u64, lease_ms: u64 },
    /// Read the job.
    Load { job_id: JobId },
    /// Take the missing job's id off the active list and give its lease up.
    ReleaseMissing { job_id: JobId, token: String },
    /// Ask the store to start the job.
    Start { job_id: JobId, token: String },
    /// Look the idempotency key up.
    CheckKey { key: String },
    /// Claim the idempotency key for the job.
    ClaimKey { key: String, job_id: JobId },
    /// Send the duplicate job back to waiting.
    ReturnToWaiting { job_id: JobId, token: String },
    /// Complete the duplicate job without running it.
    CompleteDuplicate { job_id: JobId, token: String },
    /// Read the clock.
    ReadClock,
    /// Write the record of an attempt that begins.
    RecordAttempt { job_id: JobId, attempt: JobAttempt },
    /// Run the handler on the payload.
    Execute { payload: serde_json::Value },
    /// Stop renewing the lease.
    StopHeartbeat,
    /// Record how an attempt ended.
    FinishAttempt {
        job_id: JobId,
        number: u32,
        status: JobAttemptStatus,
        error: Option<String>,
    },
    /// Complete the job.
    Complete { job_id: JobId, token: String },
    /// Complete the job and its idempotency key together.
    CompleteWithKey { job_id: JobId, token: String, key: String },
    /// End the job in this state; a delayed job is retried at `retry_at`.
    Fail { job_id: JobId, token: String, state: JobState, retry_at: u64 },
    /// The run is over (stop renewing the lease if that still runs); the
    /// state the worker last knew the job in.
    Finish { job_state: Option<JobState> },
}

/// One run of a worker.
#[derive(Debug)]
pub struct RunOnce {
    pub phase: RunPhase,
    pub lease: Option<JobLease>,
    pub job: Option<Job>,
    /// What the handler returned, once it has run.
    pub outcome: Option<Result<(), String>>,
    /// The state a duplicate job takes when its settlement is accepted.
    pub duplicate_target: JobState,
    /// The store let this run start the job.
    pub started: bool,
    /// The job has no idempotency key, or this run claimed it.
    pub key_cleared: bool,
}

/// The order of the phases: every step moves a run to a later phase.
pub open spec fn rank(phase: RunPhase) -> nat {
    match phase {
        RunPhase::Claiming => 0,
        RunPhase::AwaitClaim => 1,
        RunPhase::AwaitHeartbeat => 2,
        RunPhase::AwaitJob => 3,
        RunPhase::AwaitRelease => 4,
        RunPhase::AwaitStart => 5,
        RunPhase::AwaitKeyState => 6,
        RunPhase::AwaitKeyClaim => 7,
        RunPhase::AwaitDuplicateSettled => 8,
        RunPhase::AwaitStartClock => 9,
        RunPhase::AwaitAttemptRecorded => 10,
        RunPhase::AwaitExecution => 11,
        RunPhase::AwaitHeartbeatStopped => 12,
        RunPhase::AwaitAttemptFinished => 13,
        RunPhase::AwaitRetryClock => 14,
        RunPhase::AwaitSettled => 15,
        RunPhase::Done => 16,
    }
}

/// Whether a phase lies on the path that runs the handler.
pub open spec fn on_execution_path(phase: RunPhase) -> bool {
    rank(phase) >= 9 && phase != RunPhase::Done
}

impl RunOnce {
    /// The state of a run as it begins.
    pub fn new() -> (r: RunOnce)
        ensures
            r.wf(),
            r.phase == RunPhase::Claiming,
            r.lease is None,
            r.job is None,
            r.outcome is None,
            r.duplicate_target == JobState::Waiting,
            !r.started,
            !r.key_cleared,
    {
        RunOnce {
            phase: RunPhase::Claiming,
            lease: None,
            job: None,
            outcome: None,
            duplicate_target: JobState::Waiting,
            started: false,
            key_cleared: false,
        }
    }

    /// What a run holds in each phase.
    pub open spec fn wf(&self) -> bool {
        &&& (rank(self.phase) >= 2 && self.phase != RunPhase::Done) ==> self.lease is Some
        &&& (rank(self.phase) >= 5 && self.phase != RunPhase::Done) ==> self.job is Some
        &&& self.phase == RunPhase::AwaitJob ==> self.job is None
        &&& (self.phase == RunPhase::AwaitKeyState || self.phase == RunPhase::AwaitKeyClaim)
            ==> self.started && self.job.unwrap().idempotency_key is Some
        &&& on_execution_path(self.phase) ==> self.started && self.key_cleared
        &&& (rank(self.phase) >= 12 && self.phase != RunPhase::Done) ==> self.outcome is Some
        &&& self.phase == RunPhase::AwaitRetryClock ==> self.outcome.unwrap() is Err
        &&& self.key_cleared ==> self.started
    }

    /// Whether an event is the report the run waits for, and, where the run
    /// computes with it, fits the machine's integers.
    pub open spec fn spec_accepts(&self, event: RunEvent) -> bool {
        match (self.phase, event) {
            (RunPhase::Claiming, RunEvent::Begin) => true,
            (RunPhase::AwaitClaim, RunEvent::Claimed(_)) => true,
            (RunPhase::AwaitHeartbeat, RunEvent::HeartbeatStarted) => true,
            (RunPhase::AwaitJob, RunEvent::Loaded(_)) => true,
            (RunPhase::AwaitRelease, RunEvent::Released) => true,
            (RunPhase::AwaitStart, RunEvent::Started(_)) => true,
            (RunPhase::AwaitKeyState, RunEvent::KeyState(_)) => true,
            (RunPhase::AwaitKeyClaim, RunEvent::KeyClaimed(_)) => true,
            (RunPhase::AwaitDuplicateSettled, RunEvent::Settled(_)) => true,
            (RunPhase::AwaitStartClock, RunEvent::Clock(_)) => self.job.unwrap().attempts_started
                < u32::MAX && self.job.unwrap().attempts_made < u32::MAX,
            (RunPhase::AwaitAttemptRecorded, RunEvent::Recorded) => true,
            (RunPhase::AwaitExecution, RunEvent::Executed(_)) => true,
            (RunPhase::AwaitHeartbeatStopped, RunEvent::HeartbeatStopped) => true,
            (RunPhase::AwaitAttemptFinished, RunEvent::Recorded) => true,
            (RunPhase::AwaitRetryClock, RunEvent::Clock(now)) => self.job.unwrap().attempts_made
                <= crate::job::MAX_BACKOFF_ATTEMPTS && now + spec_retry_delay_ms(
                self.job.unwrap().attempts_made,
            ) <= u64::MAX,
            (RunPhase::AwaitSettled, RunEvent::Settled(_)) => true,
            _ => false,
        }
    }
}

/// The retry time of a failed job whose attempts are not used up.
pub open spec fn retry_at(now: u64, job: Job) -> u64 {
    (now + spec_retry_delay_ms(job.attempts_made)) as u64
}

/// The status an attempt ends with, given what the handler returned.
pub open spec fn attempt_status(outcome: Result<(), String>) -> JobAttemptStatus {
    match outcome {
        Ok(()) => JobAttemptStatus::Completed,
        Err(_) => JobAttemptStatus::Failed,
    }
}

/// The error an attempt ends with, given what the handler returned.
pub open spec fn attempt_error(outcome: Result<(), String>) -> Option<String> {
    match outcome {
        Ok(()) => None,
        Err(e) => Some(e),
    }
}

/// The job as a run's local copy has it once the run has started it.
pub open spec fn begun(job: Job) -> Job {
    Job {
        attempts_started: (job.attempts_started + 1) as u32,
        attempts_made: (job.attempts_made + 1) as u32,
        state: JobState::Active,
        ..job
    }
}

/// The protocol of one run, one step at a time: the next state and the
/// action to perform.
pub open spec fn spec_step(s: RunOnce, event: RunEvent) -> (RunOnce, RunAction) {
    let lease = s.lease.unwrap();
    let job = s.job.unwrap();
    match (s.phase, event) {
        (RunPhase::Claiming, RunEvent::Begin) => (
            RunOnce { phase: RunPhase::AwaitClaim, ..s },
            RunAction::Claim { lease_ms: LEASE_MS },
        ),
        (RunPhase::AwaitClaim, RunEvent::Claimed(l)) => (
            RunOnce { phase: RunPhase::AwaitHeartbeat, lease: Some(l), ..s },
            RunAction::StartHeartbeat {
                job_id: l.job_id,
                token: l.token,
                every_ms: HEARTBEAT_EVERY_MS,
                lease_ms: LEASE_MS,
            },
        ),
        (RunPhase::AwaitHeartbeat, RunEvent::HeartbeatStarted) => (
            RunOnce { phase: RunPhase::AwaitJob, job: None, ..s },
            RunAction::Load { job_id: lease.job_id },
        ),
        (RunPhase::AwaitJob, RunEvent::Loaded(loaded)) => match loaded {
            None => (
                RunOnce { phase: RunPhase::AwaitRelease, ..s },
                RunAction::ReleaseMissing { job_id: lease.job_id, token: lease.token },
            ),
            Some(j) => (
                RunOnce { phase: RunPhase::AwaitStart, job: Some(j), ..s },
                RunAction::Start { job_id: j.id, token: lease.token },
            ),
        },
        (RunPhase::AwaitRelease, RunEvent::Released) => (
            RunOnce { phase: RunPhase::Done, ..s },
            RunAction::Finish { job_state: None },
        ),
        (RunPhase::AwaitStart, RunEvent::Started(started)) => if !started {
            (RunOnce { phase: RunPhase::Done, ..s }, RunAction::Finish { job_state: Some(job.state) })
        } else {
            match job.idempotency_key {
                Some(key) => (
                    RunOnce { phase: RunPhase::AwaitKeyState, started: true, ..s },
                    RunAction::CheckKey { key },
                ),
                None => (
                    RunOnce {
                        phase: RunPhase::AwaitStartClock,
                        started: true,
                        key_cleared: true,
                        ..s
                    },
                    RunAction::ReadClock,
                ),
            }
        },
        (RunPhase::AwaitKeyState, RunEvent::KeyState(state)) => match state {
            IdempotencyState::New => (
                RunOnce { phase: RunPhase::AwaitKeyClaim, ..s },
                RunAction::ClaimKey { key: job.idempotency_key.unwrap(), job_id: job.id },
            ),
            IdempotencyState::Processing => (
                RunOnce {
                    phase: RunPhase::AwaitDuplicateSettled,
                    duplicate_target: JobState::Waiting,
                    ..s
                },
                RunAction::ReturnToWaiting { job_id: job.id, token: lease.token },
            ),
            IdempotencyState::Completed => (
                RunOnce {
                    phase: RunPhase::AwaitDuplicateSettled,
                    duplicate_target: JobState::Completed,
                    ..s
                },
                RunAction::CompleteDuplicate { job_id: job.id, token: lease.token },
            ),
        },
        (RunPhase::AwaitKeyClaim, RunEvent::KeyClaimed(claimed)) => if claimed {
            (RunOnce { phase: RunPhase::AwaitStartClock, key_cleared: true, ..s }, RunAction::ReadClock)
        } else {
            (RunOnce { phase: RunPhase::Done, ..s }, RunAction::Finish { job_state: Some(job.state) })
        },
        (RunPhase::AwaitDuplicateSettled, RunEvent::Settled(settled)) => {
            let state = if settled {
                s.duplicate_target
            } else {
                job.state
            };
            (
                RunOnce { phase: RunPhase::Done, job: Some(Job { state, ..job }), ..s },
                RunAction::Finish { job_state: Some(state) },
            )
        },
        (RunPhase::AwaitStartClock, RunEvent::Clock(now)) => {
            let j = begun(job);
            (
                RunOnce { phase: RunPhase::AwaitAttemptRecorded, job: Some(j), ..s },
                RunAction::RecordAttempt {
                    job_id: j.id,
                    attempt: JobAttempt {
                        attempt: j.attempts_started,
                        started_at: now,
                        finished_at: None,
                        status: JobAttemptStatus::Running,
                        error: None,
                    },
                },
            )
        },
        (RunPhase::AwaitAttemptRecorded, RunEvent::Recorded) => (
            RunOnce { phase: RunPhase::AwaitExecution, ..s },
            RunAction::Execute { payload: job.payload },
        ),
        (RunPhase::AwaitExecution, RunEvent::Executed(outcome)) => (
            RunOnce { phase: RunPhase::AwaitHeartbeatStopped, outcome: Some(outcome), ..s },
            RunAction::StopHeartbeat,
        ),
        (RunPhase::AwaitHeartbeatStopped, RunEvent::HeartbeatStopped) => (
            RunOnce { phase: RunPhase::AwaitAttemptFinished, ..s },
            RunAction::FinishAttempt {
                job_id: job.id,
                number: job.attempts_started,
                status: attempt_status(s.outcome.unwrap()),
                error: attempt_error(s.outcome.unwrap()),
            },
        ),
        (RunPhase::AwaitAttemptFinished, RunEvent::Recorded) => match s.outcome.unwrap() {
            Ok(()) => (
                RunOnce { phase: RunPhase::AwaitSettled, ..s },
                match job.idempotency_key {
                    Some(key) => RunAction::CompleteWithKey {
                        job_id: job.id,
                        token: lease.token,
                        key,
                    },
                    None => RunAction::Complete { job_id: job.id, token: lease.token },
                },
            ),
            Err(_) => if job.attempts_made >= job.max_attempts {
                (
                    RunOnce { phase: RunPhase::AwaitSettled, ..s },
                    RunAction::Fail {
                        job_id: job.id,
                        token: lease.token,
                        state: JobState::Failed,
                        retry_at: 0,
                    },
                )
            } else {
                (RunOnce { phase: RunPhase::AwaitRetryClock, ..s }, RunAction::ReadClock)
            },
        },
        (RunPhase::AwaitRetryClock, RunEvent::Clock(now)) => (
            RunOnce { phase: RunPhase::AwaitSettled, ..s },
            RunAction::Fail {
                job_id: job.id,
                token: lease.token,
                state: JobState::Delayed,
                retry_at: retry_at(now, job),
            },
        ),
        (RunPhase::AwaitSettled, RunEvent::Settled(settled)) => {
            let target = match s.outcome.unwrap() {
                Ok(()) => JobState::Completed,
                Err(_) => if job.attempts_made >= job.max_attempts {
                    JobState::Failed
                } else {
                    JobState::Delayed
                },
            };
            let state = if settled {
                target
            } else {
                job.state
            };
            (
                RunOnce { phase: RunPhase::Done, job: Some(Job { state, ..job }), ..s },
                RunAction::Finish { job_state: Some(state) },
            )
        },
        _ => (RunOnce { phase: RunPhase::Done, ..s }, RunAction::Finish { job_state: None }),
    }
}

impl RunOnce {
    /// Whether the run can take this event as its next report.
    pub fn accepts(&self, event: &RunEvent) -> (r: bool)
        requires
            self.wf(),
        ensures
            r == self.spec_accepts(*event),
    {
        match (self.phase, event) {
            (RunPhase::Claiming, RunEvent::Begin) => true,
            (RunPhase::AwaitClaim, RunEvent::Claimed(_)) => true,
            (RunPhase::AwaitHeartbeat, RunEvent::HeartbeatStarted) => true,
            (RunPhase::AwaitJob, RunEvent::Loaded(_)) => true,
            (RunPhase::AwaitRelease, RunEvent::Released) => true,
            (RunPhase::AwaitStart, RunEvent::Started(_)) => true,
            (RunPhase::AwaitKeyState, RunEvent::KeyState(_)) => true,
            (RunPhase::AwaitKeyClaim, RunEvent::KeyClaimed(_)) => true,
            (RunPhase::AwaitDuplicateSettled, RunEvent::Settled(_)) => true,
            (RunPhase::AwaitStartClock, RunEvent::Clock(_)) => {
                let job = self.job.as_ref().unwrap();
                job.attempts_started < u32::MAX && job.attempts_made < u32::MAX
            },
            (RunPhase::AwaitAttemptRecorded, RunEvent::Recorded) => true,
            (RunPhase::AwaitExecution, RunEvent::Executed(_)) => true,
            (RunPhase::AwaitHeartbeatStopped, RunEvent::HeartbeatStopped) => true,
            (RunPhase::AwaitAttemptFinished, RunEvent::Recorded) => true,
            (RunPhase::AwaitRetryClock, RunEvent::Clock(now)) => {
                let job = self.job.as_ref().unwrap();
                if job.attempts_made > crate::job::MAX_BACKOFF_ATTEMPTS {
                    false
                } else {
                    let delay = job.retry_delay_ms();
                    *now <= u64::MAX - delay
                }
            },
            (RunPhase::AwaitSettled, RunEvent::Settled(_)) => true,
            _ => false,
        }
    }

    /// One step of the run: takes the report of the last action and gives
    /// the next state and the next action.
    pub fn step(self, event: RunEvent) -> (r: (RunOnce, RunAction))
        requires
            self.wf(),
            self.spec_accepts(event),
        ensures
            r == spec_step(self, event),
            r.0.wf(),
    {
        let ghost s = self;
        let ghost e = event;
        let RunOnce { phase, lease, job, outcome, duplicate_target, started, key_cleared } = self;
        match (phase, event) {
            (RunPhase::Claiming, RunEvent::Begin) => (
                RunOnce {
                    phase: RunPhase::AwaitClaim,
                    lease,
                    job,
                    outcome,
                    duplicate_target,
                    started,
                    key_cleared,
                },
                RunAction::Claim { lease_ms: LEASE_MS },
            ),
            (RunPhase::AwaitClaim, RunEvent::Claimed(l)) => {
                let job_id = l.job_id;
                let token = l.token.clone();
                (
                    RunOnce {
                        phase: RunPhase::AwaitHeartbeat,
                        lease: Some(l),
                        job,
                        outcome,
                        duplicate_target,
                        started,
                        key_cleared,
                    },
                    RunAction::StartHeartbeat {
                        job_id,
                        token,
                        every_ms: HEARTBEAT_EVERY_MS,
                        lease_ms: LEASE_MS,
                    },
                )
            },
            (RunPhase::AwaitHeartbeat, RunEvent::HeartbeatStarted) => {
                let job_id = lease.as_ref().unwrap().job_id;
                (
                    RunOnce {
                        phase: RunPhase::AwaitJob,
                        lease,
                        job: None,
                        outcome,
                        duplicate_target,
                        started,
                        key_cleared,
                    },
                    RunAction::Load { job_id },
                )
            },
            (RunPhase::AwaitJob, RunEvent::Loaded(loaded)) => {
                let job_id = lease.as_ref().unwrap().job_id;
                let token = lease.as_ref().unwrap().token.clone();
                match loaded {
                    None => (
                        RunOnce {
                            phase: RunPhase::AwaitRelease,
                            lease,
                            job,
                            outcome,
                            duplicate_target,
                            started,
                            key_cleared,
                        },
                        RunAction::ReleaseMissing { job_id, token },
                    ),
                    Some(j) => {
                        let id = j.id;
                        (
                            RunOnce {
                                phase: RunPhase::AwaitStart,
                                lease,
                                job: Some(j),
                                outcome,
                                duplicate_target,
                                started,
                                key_cleared,
                            },
                            RunAction::Start { job_id: id, token },
                        )
                    },
                }
            },
            (RunPhase::AwaitRelease, RunEvent::Released) => (
                RunOnce {
                    phase: RunPhase::Done,
                    lease,
                    job,
                    outcome,
                    duplicate_target,
                    started,
                    key_cleared,
                },
                RunAction::Finish { job_state: None },
            ),
            (RunPhase::AwaitStart, RunEvent::Started(accepted)) => {
                let state = job.as_ref().unwrap().state;
                if !accepted {
                    (
                        RunOnce {
                            phase: RunPhase::Done,
                            lease,
                            job,
                            outcome,
                            duplicate_target,
                            started,
                            key_cleared,
                        },
                        RunAction::Finish { job_state: Some(state) },
                    )
                } else {
                    match copy_key(&job.as_ref().unwrap().idempotency_key) {
                        Some(key) => (
                            RunOnce {
                                phase: RunPhase::AwaitKeyState,
                                lease,
                                job,
                                outcome,
                                duplicate_target,
                                started: true,
                                key_cleared,
                            },
                            RunAction::CheckKey { key },
                        ),
                        None => (
                            RunOnce {
                                phase: RunPhase::AwaitStartClock,
                                lease,
                                job,
                                outcome,
                                duplicate_target,
                                started: true,
                                key_cleared: true,
                            },
                            RunAction::ReadClock,
                        ),
                    }
                }
            },
            (RunPhase::AwaitKeyState, RunEvent::KeyState(state)) => {
                let job_id = job.as_ref().unwrap().id;
                let token = lease.as_ref().unwrap().token.clone();
                match state {
                    IdempotencyState::New => {
                        let key = copy_key(&job.as_ref().unwrap().idempotency_key).unwrap();
                        (
                            RunOnce {
                                phase: RunPhase::AwaitKeyClaim,
                                lease,
                                job,
                                outcome,
                                duplicate_target,
                                started,
                                key_cleared,
                            },
                            RunAction::ClaimKey { key, job_id },
                        )
                    },
                    IdempotencyState::Processing => (
                        RunOnce {
                            phase: RunPhase::AwaitDuplicateSettled,
                            lease,
                            job,
                            outcome,
                            duplicate_target: JobState::Waiting,
                            started,
                            key_cleared,
                        },
                        RunAction::ReturnToWaiting { job_id, token },
                    ),
                    IdempotencyState::Completed => (
                        RunOnce {
                            phase: RunPhase::AwaitDuplicateSettled,
                            lease,
                            job,
                            outcome,
                            duplicate_target: JobState::Completed,
                            started,
                            key_cleared,
                        },
                        RunAction::CompleteDuplicate { job_id, token },
                    ),
                }
            },
            (RunPhase::AwaitKeyClaim, RunEvent::KeyClaimed(claimed)) => {
                let state = job.as_ref().unwrap().state;
                if claimed {
                    (
                        RunOnce {
                            phase: RunPhase::AwaitStartClock,
                            lease,
                            job,
                            outcome,
                            duplicate_target,
                            started,
                            key_cleared: true,
                        },
                        RunAction::ReadClock,
                    )
                } else {
                    (
                        RunOnce {
                            phase: RunPhase::Done,
                            lease,
                            job,
                            outcome,
                            duplicate_target,
                            started,
                            key_cleared,
                        },
                        RunAction::Finish { job_state: Some(state) },
                    )
                }
            },
            (RunPhase::AwaitDuplicateSettled, RunEvent::Settled(settled)) => {
                let mut j = job.unwrap();
                let state = if settled {
                    duplicate_target
                } else {
                    j.state
                };
                j.state = state;
                (
                    RunOnce {
                        phase: RunPhase::Done,
                        lease,
                        job: Some(j),
                        outcome,
                        duplicate_target,
                        started,
                        key_cleared,
                    },
                    RunAction::Finish { job_state: Some(state) },
                )
            },
            (RunPhase::AwaitStartClock, RunEvent::Clock(now)) => {
                let mut j = job.unwrap();
                j.attempts_started = j.attempts_started + 1;
                j.attempts_made = j.attempts_made + 1;
                j.state = JobState::Active;
                let attempt = begin_attempt(j.attempts_started, now);
                let job_id = j.id;
                (
                    RunOnce {
                        phase: RunPhase::AwaitAttemptRecorded,
                        lease,
                        job: Some(j),
                        outcome,
                        duplicate_target,
                        started,
                        key_cleared,
                    },
                    RunAction::RecordAttempt { job_id, attempt },
                )
            },
            (RunPhase::AwaitAttemptRecorded, RunEvent::Recorded) => {
                let payload = job.as_ref().unwrap().payload.clone();
                (
                    RunOnce {
                        phase: RunPhase::AwaitExecution,
                        lease,
                        job,
                        outcome,
                        duplicate_target,
                        started,
                        key_cleared,
                    },
                    RunAction::Execute { payload },
                )
            },
            (RunPhase::AwaitExecution, RunEvent::Executed(result)) => (
                RunOnce {
                    phase: RunPhase::AwaitHeartbeatStopped,
                    lease,
                    job,
                    outcome: Some(result),
                    duplicate_target,
                    started,
                    key_cleared,
                },
                RunAction::StopHeartbeat,
            ),
            (RunPhase::AwaitHeartbeatStopped, RunEvent::HeartbeatStopped) => {
                let job_id = job.as_ref().unwrap().id;
                let number = job.as_ref().unwrap().attempts_started;
                let (status, error) = match outcome.as_ref().unwrap() {
                    Ok(()) => (JobAttemptStatus::Completed, None),
                    Err(e) => (JobAttemptStatus::Failed, Some(e.clone())),
                };
                (
                    RunOnce {
                        phase: RunPhase::AwaitAttemptFinished,
                        lease,
                        job,
                        outcome,
                        duplicate_target,
                        started,
                        key_cleared,
                    },
                    RunAction::FinishAttempt { job_id, number, status, error },
                )
            },
            (RunPhase::AwaitAttemptFinished, RunEvent::Recorded) => {
                let job_id = job.as_ref().unwrap().id;
                let token = lease.as_ref().unwrap().token.clone();
                let succeeded = outcome.as_ref().unwrap().is_ok();
                if succeeded {
                    let action = match copy_key(&job.as_ref().unwrap().idempotency_key) {
                        Some(key) => RunAction::CompleteWithKey { job_id, token, key },
                        None => RunAction::Complete { job_id, token },
                    };
                    (
                        RunOnce {
                            phase: RunPhase::AwaitSettled,
                            lease,
                            job,
                            outcome,
                            duplicate_target,
                            started,
                            key_cleared,
                        },
                        action,
                    )
                } else if job.as_ref().unwrap().attempts_made >= job.as_ref().unwrap().max_attempts {
                    (
                        RunOnce {
                            phase: RunPhase::AwaitSettled,
                            lease,
                            job,
                            outcome,
                            duplicate_target,
                            started,
                            key_cleared,
                        },
                        RunAction::Fail { job_id, token, state: JobState::Failed, retry_at: 0 },
                    )
                } else {
                    (
                        RunOnce {
                            phase: RunPhase::AwaitRetryClock,
                            lease,
                            job,
                            outcome,
                            duplicate_target,
                            started,
                            key_cleared,
                        },
                        RunAction::ReadClock,
                    )
                }
            },
            (RunPhase::AwaitRetryClock, RunEvent::Clock(now)) => {
                let job_id = job.as_ref().unwrap().id;
                let token = lease.as_ref().unwrap().token.clone();
                let delay = job.as_ref().unwrap().retry_delay_ms();
                let at = now + delay;
                (
                    RunOnce {
                        phase: RunPhase::AwaitSettled,
                        lease,
                        job,
                        outcome,
                        duplicate_target,
                        started,
                        key_cleared,
                    },
                    RunAction::Fail { job_id, token, state: JobState::Delayed, retry_at: at },
                )
            },
            (RunPhase::AwaitSettled, RunEvent::Settled(settled)) => {
                let mut j = job.unwrap();
                let target = if outcome.as_ref().unwrap().is_ok() {
                    JobState::Completed
                } else if j.attempts_made >= j.max_attempts {
                    JobState::Failed
                } else {
                    JobState::Delayed
                };
                let state = if settled {
                    target
                } else {
                    j.state
                };
                j.state = state;
                (
                    RunOnce {
                        phase: RunPhase::Done,
                        lease,
                        job: Some(j),
                        outcome,
                        duplicate_target,
                        started,
                        key_cleared,
                    },
                    RunAction::Finish { job_state: Some(state) },
                )
            },
            (phase, event) => {
                proof {
                    assert(false);
                }
                (
                    RunOnce {
                        phase: RunPhase::Done,
                        lease,
                        job,
                        outcome,
                        duplicate_target,
                        started,
                        key_cleared,
                    },
                    RunAction::Finish { job_state: None },
                )
            },
        }
    }
}

/// The actions a run asks for when it is given these reports in turn, as
/// long as each is one it accepts.
pub open spec fn actions_of(s: RunOnce, events: Seq<RunEvent>) -> Seq<RunAction>
    decreases events.len(),
{
    if events.len() == 0 || !s.wf() || !s.spec_accepts(events[0]) {
        Seq::empty()
    } else {
        let (next, action) = spec_step(s, events[0]);
        seq![action] + actions_of(next, events.drop_first())
    }
}

/// How many of the actions run the handler.
pub open spec fn execute_count(actions: Seq<RunAction>) -> nat
    decreases actions.len(),
{
    if actions.len() == 0 {
        0
    } else {
        (if actions[0] is Execute {
            1nat
        } else {
            0nat
        }) + execute_count(actions.drop_first())
    }
}

/// Phases from which the handler may still be run.
pub open spec fn may_execute(phase: RunPhase) -> bool {
    rank(phase) <= 10 && phase != RunPhase::AwaitRelease && phase
        != RunPhase::AwaitDuplicateSettled
}

/// Every step moves a run to a later phase, so a run ends after at most
/// sixteen steps.
pub proof fn lemma_step_moves_forward(s: RunOnce, e: RunEvent)
    requires
        s.wf(),
        s.spec_accepts(e),
    ensures
        rank(spec_step(s, e).0.phase) > rank(s.phase),
        !may_execute(s.phase) ==> !may_execute(spec_step(s, e).0.phase),
{
}

/// The handler is run only once the store has let this run start the job
/// and, for a job with an idempotency key, only once this run has claimed
/// the key; and only from the phase right after the attempt was recorded.
pub proof fn lemma_execute_needs_ownership(s: RunOnce, e: RunEvent)
    requires
        s.wf(),
        s.spec_accepts(e),
        spec_step(s, e).1 is Execute,
    ensures
        s.phase == RunPhase::AwaitAttemptRecorded,
        s.started,
        s.key_cleared,
        spec_step(s, e).0.phase == RunPhase::AwaitExecution,
{
}

/// Only an accepted start marks the job started, and only an accepted start
/// of a job without a key, or an accepted claim of its key, clears the key.
pub proof fn lemma_ownership_comes_from_the_store(s: RunOnce, e: RunEvent)
    requires
        s.wf(),
        s.spec_accepts(e),
    ensures
        !s.started && spec_step(s, e).0.started ==> e == RunEvent::Started(true),
        !s.key_cleared && spec_step(s, e).0.key_cleared ==> ((e == RunEvent::Started(true)
            && s.job.unwrap().idempotency_key is None) || e == RunEvent::KeyClaimed(true)),
{
}

/// A run executes the handler at most once, and not at all once it is past
/// the point of executing it.
pub proof fn lemma_at_most_one_execution(s: RunOnce, events: Seq<RunEvent>)
    requires
        s.wf(),
    ensures
        execute_count(actions_of(s, events)) <= (if may_execute(s.phase) {
            1nat
        } else {
            0nat
        }),
    decreases events.len(),
{
    if events.len() == 0 || !s.spec_accepts(events[0]) {
        assert(actions_of(s, events) =~= Seq::<RunAction>::empty());
    } else {
        let (next, action) = spec_step(s, events[0]);
        lemma_step_moves_forward(s, events[0]);
        lemma_at_most_one_execution(next, events.drop_first());
        let all = actions_of(s, events);
        assert(all.drop_first() =~= actions_of(next, events.drop_first()));
        assert(all[0] == action);
        if action is Execute {
            lemma_execute_needs_ownership(s, events[0]);
        }
    }
}

/// A job whose idempotency key is already held or done is never run: once
/// the key is found processing or completed, no later action runs the handler.
pub proof fn lemma_duplicates_never_execute(s: RunOnce, key_state: IdempotencyState, rest: Seq<RunEvent>)
    requires
        s.wf(),
        s.phase == RunPhase::AwaitKeyState,
        key_state != IdempotencyState::New,
    ensures
        execute_count(actions_of(spec_step(s, RunEvent::KeyState(key_state)).0, rest)) == 0,
{
    let next = spec_step(s, RunEvent::KeyState(key_state)).0;
    lemma_at_most_one_execution(next, rest);
}

/// How a failed attempt ends: with its attempts used up the job fails for
/// good; otherwise it is delayed and retried after the back-off.
pub proof fn lemma_failed_attempt_settlement(s: RunOnce, now: u64)
    requires
        s.wf(),
        s.phase == RunPhase::AwaitAttemptFinished,
        s.outcome.unwrap() is Err,
    ensures
        s.job.unwrap().attempts_made >= s.job.unwrap().max_attempts ==> spec_step(
            s,
            RunEvent::Recorded,
        ).1 == (RunAction::Fail {
            job_id: s.job.unwrap().id,
            token: s.lease.unwrap().token,
            state: JobState::Failed,
            retry_at: 0,
        }),
        s.job.unwrap().attempts_made < s.job.unwrap().max_attempts ==> {
            let next = spec_step(s, RunEvent::Recorded).0;
            &&& next.phase == RunPhase::AwaitRetryClock
            &&& spec_step(next, RunEvent::Clock(now)).1 == (RunAction::Fail {
                job_id: s.job.unwrap().id,
                token: s.lease.unwrap().token,
                state: JobState::Delayed,
                retry_at: retry_at(now, s.job.unwrap()),
            })
        },
{
}

/// The run the repeatable scheduler creates now for a job it found due, if
/// any: the job's next run, when the job still exists, is enabled, has a
/// next run and that run is not later than `now_ms`.
pub open spec fn spec_due_run(job: Option<RepeatableJob>, now_ms: u64) -> Option<u64> {
    match job {
        Some(j) => if j.enabled {
            match j.next_run_at {
                Some(t) => if t <= now_ms {
                    Some(t)
                } else {
                    None
                },
                None => None,
            }
        } else {
            None
        },
        None => None,
    }
}

/// Decides whether the repeatable scheduler creates a run of a job now.
pub fn due_run(job: &Option<RepeatableJob>, now_ms: u64) -> (r: Option<u64>)
    ensures
        r == spec_due_run(*job, now_ms),
{
    match job {
        None => None,
        Some(j) => {
            if !j.enabled {
                return None;
            }
            match j.next_run_at {
                None => None,
                Some(t) => if t > now_ms {
                    None
                } else {
                    Some(t)
                },
            }
        },
    }
}

/// A disabled repeatable job, or one not yet due, never gets a run.
pub proof fn lemma_disabled_jobs_never_run(job: RepeatableJob, now_ms: u64)
    ensures
        !job.enabled ==> spec_due_run(Some(job), now_ms) is None,
        (job.next_run_at matches Some(t) && t > now_ms) ==> spec_due_run(Some(job), now_ms)
            is None,
{
}

/// Once a run has been created and the job moved on to its next run, the
/// same job is not due again until a whole period has passed: two passes of
/// the scheduler within a period create one run.
pub proof fn lemma_advanced_job_not_due_again(job: RepeatableJob, run_at: u64, now_ms: u64)
    requires
        run_at + crate::repeat::interval(job.schedule) <= u64::MAX,
        now_ms < run_at + crate::repeat::interval(job.schedule),
    ensures
        spec_due_run(
            Some(
                RepeatableJob {
                    next_run_at: Some(
                        crate::repeat::spec_next_run_at(job.schedule, run_at as nat) as u64,
                    ),
                    ..job
                },
            ),
            now_ms,
        ) is None,
{
}

/// A copy of an optional idempotency key.
fn copy_key(key: &Option<String>) -> (r: Option<String>)
    ensures
        r == *key,
{
    crate::job::copy_optional_text(key)
}

/// Runs of jobs that share an idempotency key run the handler at most once
/// between them: once one job has claimed the key, no other job can claim
/// it, the key never reads as new again, whether or not the first job went
/// on to complete it, and a run that then looks the key up never executes
/// its job.
pub proof fn lemma_shared_key_executes_once(
    first: JobId,
    completed: bool,
    second: JobId,
    s: RunOnce,
    rest: Seq<RunEvent>,
)
    requires
        s.wf(),
        s.phase == RunPhase::AwaitKeyState,
    ensures
        ({
            let claimed = crate::idempotency::spec_claim(None, first);
            let record = if completed {
                crate::idempotency::spec_complete(claimed, first)
            } else {
                claimed
            };
            &&& crate::idempotency::spec_claim(claimed, second) is None
            &&& crate::idempotency::spec_claim(record, second) is None
            &&& crate::idempotency::spec_state_of(record) != IdempotencyState::New
            &&& execute_count(
                actions_of(
                    spec_step(s, RunEvent::KeyState(crate::idempotency::spec_state_of(record))).0,
                    rest,
                ),
            ) == 0
        }),
{
    let claimed = crate::idempotency::spec_claim(None, first);
    let record = if completed {
        crate::idempotency::spec_complete(claimed, first)
    } else {
        claimed
    };
    lemma_duplicates_never_execute(s, crate::idempotency::spec_state_of(record), rest);
}

/// A repeatable job goes on running, one run per period: after the run due
/// at `run_at` is created and the job moved on, a pass a period or more
/// later finds the next run due, a period after the first, and marks it
/// under an occurrence key of its own.
pub proof fn lemma_next_pass_creates_next_run(job: RepeatableJob, run_at: u64, now_ms: u64)
    requires
        job.enabled,
        job.next_run_at == Some(run_at),
        crate::repeat::interval(job.schedule) > 0,
        run_at + crate::repeat::interval(job.schedule) <= now_ms,
    ensures
        spec_due_run(Some(job), now_ms) == Some(run_at),
        ({
            let next = crate::repeat::spec_next_run_at(job.schedule, run_at as nat) as u64;
            &&& spec_due_run(Some(RepeatableJob { next_run_at: Some(next), ..job }), now_ms) == Some(
                next,
            )
            &&& next > run_at
            &&& crate::keys::spec_occurrence_key(job.id, run_at) != crate::keys::spec_occurrence_key(
                job.id,
                next,
            )
        }),
{
    let next = crate::repeat::spec_next_run_at(job.schedule, run_at as nat) as u64;
    crate::keys::lemma_occurrence_keys_differ(job.id, run_at, next);
}

/// A failed job is retried after an exponential back-off: a job whose
/// first attempt failed is retried one second after the clock's reading,
/// and each further failed attempt doubles the wait.
pub proof fn lemma_retry_backs_off(s: RunOnce, t: RunOnce, now: u64)
    requires
        s.wf(),
        t.wf(),
        s.phase == RunPhase::AwaitRetryClock,
        t.phase == RunPhase::AwaitRetryClock,
        1 <= s.job.unwrap().attempts_made < 55,
        t.job.unwrap().attempts_made == s.job.unwrap().attempts_made + 1,
        now <= 100_000_000_000_000,
    ensures
        s.spec_accepts(RunEvent::Clock(now)),
        t.spec_accepts(RunEvent::Clock(now)),
        spec_step(s, RunEvent::Clock(now)).1 matches RunAction::Fail { state, .. } && state
            == JobState::Delayed,
        spec_step(t, RunEvent::Clock(now)).1 matches RunAction::Fail { state, .. } && state
            == JobState::Delayed,
        s.job.unwrap().attempts_made == 1 ==> spec_step(s, RunEvent::Clock(now)).1->Fail_retry_at
            == now + 1000,
        spec_step(t, RunEvent::Clock(now)).1->Fail_retry_at - now == 2 * (spec_step(
            s,
            RunEvent::Clock(now),
        ).1->Fail_retry_at - now),
{
    let m = s.job.unwrap().attempts_made;
    crate::job::lemma_doubling_monotone(m as nat, 54);
    crate::job::lemma_doubling_monotone((m - 1) as nat, 54);
    crate::job::lemma_doubling_54();
    assert(crate::job::doubling(m as nat) == 2 * crate::job::doubling((m - 1) as nat));
    if m == 1 {
        assert(crate::job::doubling(0) == 1);
    }
}

} // verus!
