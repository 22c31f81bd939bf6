use vstd::prelude::*;

verus! {

/// JSON payloads travel through the queue untouched.
#[verifier::external_type_specification]
#[verifier::external_body]
pub struct ExJsonValue(serde_json::Value);

/// `serde_json::Value` derives `Clone`: the copy is the same JSON value.
pub assume_specification[ <serde_json::Value as Clone>::clone ](value: &serde_json::Value) -> (r:
    serde_json::Value)
    ensures
        r == *value,
;

/// Identifier of a job: the 128 bits of a UUID.
#[derive(Clone, Copy, Debug, PartialEq, Eq, Hash, Structural)]
pub struct JobId(pub u128);

/// Lifecycle state of a job.
#[derive(Clone, Copy, Debug, PartialEq, Eq, Hash, Structural)]
pub enum JobState {
    Waiting,
    Prioritized,
    Scheduled,
    Delayed,
    Active,
    Completed,
    Failed,
    Cancelled,
}

/// A refused state change.
#[derive(Clone, Copy, Debug, PartialEq, Eq, Structural)]
pub struct StateTransitionError {
    pub from: JobState,
    pub to: JobState,
}

/// Options given when a job is created.
#[derive(Debug)]
pub struct JobOptions {
    pub priority: i32,
    pub max_attempts: u32,
    pub delay_ms: u64,
    pub run_at: Option<u64>,
    pub idempotency_key: Option<String>,
}

/// The number of attempts a job gets unless told otherwise.
pub const DEFAULT_MAX_ATTEMPTS: u32 = 3;

impl Default for JobOptions {
    fn default() -> (r: Self)
        ensures
            r.priority == 0,
            r.max_attempts == DEFAULT_MAX_ATTEMPTS,
            r.delay_ms == 0,
            r.run_at is None,
            r.idempotency_key is None,
    {
        JobOptions {
            priority: 0,
            max_attempts: DEFAULT_MAX_ATTEMPTS,
            delay_ms: 0,
            run_at: None,
            idempotency_key: None,
        }
    }
}

/// A unit of work.
#[derive(Debug)]
pub struct Job {
    pub id: JobId,
    pub name: String,
    pub payload: serde_json::Value,
    pub state: JobState,
    pub priority: i32,
    pub attempts_made: u32,
    pub attempts_started: u32,
    pub max_attempts: u32,
    pub delay_ms: u64,
    pub run_at: Option<u64>,
    pub idempotency_key: Option<String>,
}

/// Outcome of one attempt at running a job.
#[derive(Clone, Copy, Debug, PartialEq, Eq, Structural)]
pub enum JobAttemptStatus {
    Running,
    Completed,
    Failed,
}

/// Record of one attempt at running a job.
#[derive(Debug)]
pub struct JobAttempt {
    pub attempt: u32,
    pub started_at: u64,
    pub finished_at: Option<u64>,
    pub status: JobAttemptStatus,
    pub error: Option<String>,
}

/// The state a new job starts in: a run time wins over a delay, a delay over
/// a positive priority.
pub open spec fn initial_state(options: JobOptions) -> JobState {
    if options.run_at is Some {
        JobState::Scheduled
    } else if options.delay_ms > 0 {
        JobState::Delayed
    } else if options.priority > 0 {
        JobState::Prioritized
    } else {
        JobState::Waiting
    }
}

/// What `Job::new` builds from its arguments, given the identifier it drew.
pub open spec fn job_from_options(
    id: JobId,
    name: String,
    payload: serde_json::Value,
    options: JobOptions,
) -> Job {
    Job {
        id,
        name,
        payload,
        state: initial_state(options),
        priority: options.priority,
        attempts_made: 0,
        attempts_started: 0,
        max_attempts: options.max_attempts,
        delay_ms: options.delay_ms,
        run_at: options.run_at,
        idempotency_key: options.idempotency_key,
    }
}

/// 2 to the power `e`.
pub open spec fn doubling(e: nat) -> nat
    decreases e,
{
    if e == 0 {
        1
    } else {
        2 * doubling((e - 1) as nat)
    }
}

/// The exponent of the back-off after `attempts_made` attempts.
pub open spec fn backoff_exponent(attempts_made: u32) -> nat {
    if attempts_made == 0 {
        0
    } else {
        (attempts_made - 1) as nat
    }
}

/// Delay before the next retry: one second, doubled for each attempt after the first.
pub open spec fn spec_retry_delay_ms(attempts_made: u32) -> nat {
    1000 * doubling(backoff_exponent(attempts_made))
}

/// The largest attempt count whose back-off fits in a `u64`.
pub const MAX_BACKOFF_ATTEMPTS: u32 = 55;

/// Powers of two grow with the exponent.
pub proof fn lemma_doubling_monotone(a: nat, b: nat)
    requires
        a <= b,
    ensures
        doubling(a) <= doubling(b),
    decreases b,
{
    if a < b {
        lemma_doubling_monotone(a, (b - 1) as nat);
    }
}

/// The back-off starts at one second, for a job that has made no attempt
/// or one, and doubles with each further attempt made.
pub proof fn lemma_backoff_doubles(attempts_made: u32)
    requires
        1 <= attempts_made < u32::MAX,
    ensures
        spec_retry_delay_ms(0) == 1000,
        spec_retry_delay_ms(1) == 1000,
        spec_retry_delay_ms((attempts_made + 1) as u32) == 2 * spec_retry_delay_ms(attempts_made),
{
    assert(doubling(attempts_made as nat) == 2 * doubling((attempts_made - 1) as nat));
}

pub(crate) proof fn lemma_doubling_54()
    ensures
        doubling(54) == 18014398509481984,
{
    reveal_with_fuel(doubling, 55);
}

/// A copy of an optional text.
pub fn copy_optional_text(text: &Option<String>) -> (r: Option<String>)
    ensures
        r == *text,
{
    match text {
        Some(t) => Some(t.clone()),
        None => None,
    }
}

impl Clone for JobOptions {
    fn clone(&self) -> (r: Self)
        ensures
            r == *self,
    {
        JobOptions {
            priority: self.priority,
            max_attempts: self.max_attempts,
            delay_ms: self.delay_ms,
            run_at: self.run_at,
            idempotency_key: copy_optional_text(&self.idempotency_key),
        }
    }
}

impl Clone for Job {
    fn clone(&self) -> (r: Self)
        ensures
            r == *self,
    {
        Job {
            id: self.id,
            name: self.name.clone(),
            payload: self.payload.clone(),
            state: self.state,
            priority: self.priority,
            attempts_made: self.attempts_made,
            attempts_started: self.attempts_started,
            max_attempts: self.max_attempts,
            delay_ms: self.delay_ms,
            run_at: self.run_at,
            idempotency_key: copy_optional_text(&self.idempotency_key),
        }
    }
}

impl Clone for JobAttempt {
    fn clone(&self) -> (r: Self)
        ensures
            r == *self,
    {
        JobAttempt {
            attempt: self.attempt,
            started_at: self.started_at,
            finished_at: self.finished_at,
            status: self.status,
            error: copy_optional_text(&self.error),
        }
    }
}

impl JobId {
    /// A fresh random identifier: a version 4 UUID.
    pub fn new() -> (r: Self)
        ensures
            crate::ids::is_v4(r.0),
    {
        JobId(crate::ids::new_uuid())
    }

    /// The identifier's hyphenated text, as it appears in keys and responses.
    pub fn text(&self) -> (r: String)
        ensures
            r@ == crate::ids::uuid_text(self.0),
    {
        crate::ids::uuid_string(self.0)
    }
}

impl Job {
    /// Builds a job from its options with a fresh identifier; its state is
    /// `initial_state(options)` and it has made no attempts.
    pub fn new(name: String, payload: serde_json::Value, options: JobOptions) -> (r: Self)
        ensures
            r == job_from_options(r.id, name, payload, options),
            crate::ids::is_v4(r.id.0),
    {
        let id = JobId::new();
        let state = if options.run_at.is_some() {
            JobState::Scheduled
        } else if options.delay_ms > 0 {
            JobState::Delayed
        } else if options.priority > 0 {
            JobState::Prioritized
        } else {
            JobState::Waiting
        };
        Job {
            id,
            name,
            payload,
            state,
            priority: options.priority,
            attempts_made: 0,
            attempts_started: 0,
            max_attempts: options.max_attempts,
            delay_ms: options.delay_ms,
            run_at: options.run_at,
            idempotency_key: options.idempotency_key,
        }
    }

    /// Moves the job to `next` when the lifecycle allows it; otherwise leaves
    /// the job alone and reports the refused change.
    pub fn transition_to(&mut self, next: JobState) -> (r: Result<(), StateTransitionError>)
        ensures
            crate::state::spec_can_transition(old(self).state, next) ==> (r is Ok && *final(self)
                == (Job { state: next, ..*old(self) })),
            !crate::state::spec_can_transition(old(self).state, next) ==> (r == Err::<
                (),
                StateTransitionError,
            >(StateTransitionError { from: old(self).state, to: next }) && *final(self) == *old(
                self,
            )),
    {
        if !self.state.can_transition_to(next) {
            return Err(StateTransitionError { from: self.state, to: next });
        }
        self.state = next;
        Ok(())
    }

    /// Exponential back-off: 1000 ms times 2 to the power (attempts made - 1),
    /// with no attempts counting as one.
    pub fn retry_delay_ms(&self) -> (r: u64)
        requires
            self.attempts_made <= MAX_BACKOFF_ATTEMPTS,
        ensures
            r == spec_retry_delay_ms(self.attempts_made),
    {
        let exponent: u32 = if self.attempts_made == 0 {
            0
        } else {
            self.attempts_made - 1
        };
        let mut delay: u64 = 1000;
        let mut i: u32 = 0;
        while i < exponent
            invariant
                exponent == backoff_exponent(self.attempts_made),
                exponent <= 54,
                i <= exponent,
                delay == 1000 * doubling(i as nat),
            decreases exponent - i,
        {
            proof {
                lemma_doubling_monotone((i + 1) as nat, 54);
                lemma_doubling_54();
                assert(doubling((i + 1) as nat) == 2 * doubling(i as nat));
            }
            delay = delay * 2;
            i = i + 1;
        }
        delay
    }
}

/// Where a new job starts: a job with a run time is scheduled, whatever its
/// delay and priority; otherwise a job with a delay is delayed, whatever
/// its priority; otherwise a job with a positive priority is prioritized,
/// and any other job waits. A scheduled or delayed job can later be moved
/// to waiting, and a prioritized or waiting one can be started.
pub proof fn lemma_initial_state_order(options: JobOptions)
    ensures
        options.run_at is Some ==> initial_state(options) == JobState::Scheduled,
        options.run_at is None && options.delay_ms > 0 ==> initial_state(options)
            == JobState::Delayed,
        options.run_at is None && options.delay_ms == 0 && options.priority > 0 ==> initial_state(
            options,
        ) == JobState::Prioritized,
        options.run_at is None && options.delay_ms == 0 && options.priority <= 0 ==> initial_state(
            options,
        ) == JobState::Waiting,
        (options.run_at is Some || options.delay_ms > 0) ==> crate::state::spec_can_transition(
            initial_state(options),
            JobState::Waiting,
        ),
        (options.run_at is None && options.delay_ms == 0) ==> crate::state::spec_can_transition(
            initial_state(options),
            JobState::Active,
        ),
{
}

} // verus!
