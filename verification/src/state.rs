use vstd::prelude::*;

use crate::job::JobState;

verus! {

/// The lifecycle: waiting and prioritized jobs become active; scheduled and
/// delayed jobs become waiting; an active job completes, fails, is delayed
/// for a retry or goes back to waiting when its lease is recovered.
pub open spec fn spec_can_transition(from: JobState, to: JobState) -> bool {
    match (from, to) {
        (JobState::Waiting, JobState::Active) => true,
        (JobState::Prioritized, JobState::Active) => true,
        (JobState::Scheduled, JobState::Waiting) => true,
        (JobState::Delayed, JobState::Waiting) => true,
        (JobState::Active, JobState::Completed) => true,
        (JobState::Active, JobState::Failed) => true,
        (JobState::Active, JobState::Delayed) => true,
        (JobState::Active, JobState::Waiting) => true,
        _ => false,
    }
}

/// A state with no way out.
pub open spec fn is_terminal(state: JobState) -> bool {
    state == JobState::Completed || state == JobState::Failed || state == JobState::Cancelled
}

impl JobState {
    pub fn can_transition_to(&self, next: JobState) -> (r: bool)
        ensures
            r == spec_can_transition(*self, next),
    {
        match (self, next) {
            (JobState::Waiting, JobState::Active) => true,
            (JobState::Prioritized, JobState::Active) => true,
            (JobState::Scheduled, JobState::Waiting) => true,
            (JobState::Delayed, JobState::Waiting) => true,
            (JobState::Active, JobState::Completed) => true,
            (JobState::Active, JobState::Failed) => true,
            (JobState::Active, JobState::Delayed) => true,
            (JobState::Active, JobState::Waiting) => true,
            _ => false,
        }
    }
}

/// Completed, failed and cancelled jobs never change state again.
pub proof fn lemma_terminal_states_are_final(from: JobState, to: JobState)
    requires
        is_terminal(from),
    ensures
        !spec_can_transition(from, to),
{
}

/// No state moves to itself.
pub proof fn lemma_no_self_transition(state: JobState)
    ensures
        !spec_can_transition(state, state),
{
}

/// Only waiting and prioritized jobs can become active.
pub proof fn lemma_only_queued_jobs_start(from: JobState)
    ensures
        spec_can_transition(from, JobState::Active) <==> (from == JobState::Waiting || from
            == JobState::Prioritized),
{
}

/// Every transition out of the active state ends it, and only an active job
/// can complete or fail.
pub proof fn lemma_outcomes_come_from_active(from: JobState, to: JobState)
    requires
        to == JobState::Completed || to == JobState::Failed,
    ensures
        spec_can_transition(from, to) <==> from == JobState::Active,
{
}

/// Nothing ever enters the scheduled, prioritized or cancelled state through a transition.
pub proof fn lemma_entry_only_states(from: JobState, to: JobState)
    requires
        to == JobState::Scheduled || to == JobState::Prioritized || to == JobState::Cancelled,
    ensures
        !spec_can_transition(from, to),
{
}

/// The whole lifecycle: a job moves between two states exactly when the
/// pair is one of these eight, and in no other way. In particular a job is
/// delayed only from the active state, after a failed attempt.
pub proof fn lemma_transition_table(from: JobState, to: JobState)
    ensures
        spec_can_transition(from, to) <==> (from == JobState::Waiting && to == JobState::Active)
            || (from == JobState::Prioritized && to == JobState::Active) || (from
            == JobState::Scheduled && to == JobState::Waiting) || (from == JobState::Delayed && to
            == JobState::Waiting) || (from == JobState::Active && to == JobState::Completed) || (
        from == JobState::Active && to == JobState::Failed) || (from == JobState::Active && to
            == JobState::Delayed) || (from == JobState::Active && to == JobState::Waiting),
        to == JobState::Delayed ==> (spec_can_transition(from, to) <==> from == JobState::Active),
        to == JobState::Waiting ==> (spec_can_transition(from, to) <==> (from
            == JobState::Scheduled || from == JobState::Delayed || from == JobState::Active)),
{
}

} // verus!
