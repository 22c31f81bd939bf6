use vstd::prelude::*;

use crate::job::JobId;

verus! {

/// Progress of the job that holds an idempotency key.
#[derive(Clone, Copy, Debug, PartialEq, Eq, Structural)]
pub enum IdempotencyStatus {
    Processing,
    Completed,
}

/// What is stored under an idempotency key: the job that holds it and how
/// far that job got.
#[derive(Clone, Copy, Debug, PartialEq, Eq, Structural)]
pub struct IdempotencyRecord {
    pub job_id: JobId,
    pub status: IdempotencyStatus,
}

/// What a worker learns when it looks an idempotency key up.
#[derive(Clone, Copy, Debug, PartialEq, Eq, Structural)]
pub enum IdempotencyState {
    New,
    Processing,
    Completed,
}

pub open spec fn spec_state_of(record: Option<IdempotencyRecord>) -> IdempotencyState {
    match record {
        None => IdempotencyState::New,
        Some(r) => match r.status {
            IdempotencyStatus::Processing => IdempotencyState::Processing,
            IdempotencyStatus::Completed => IdempotencyState::Completed,
        },
    }
}

/// The state of a key: new when nothing is stored, otherwise the stored status.
pub fn state_of(record: Option<IdempotencyRecord>) -> (r: IdempotencyState)
    ensures
        r == spec_state_of(record),
{
    match record {
        None => IdempotencyState::New,
        Some(record) => match record.status {
            IdempotencyStatus::Processing => IdempotencyState::Processing,
            IdempotencyStatus::Completed => IdempotencyState::Completed,
        },
    }
}

pub open spec fn spec_claim(existing: Option<IdempotencyRecord>, job_id: JobId) -> Option<
    IdempotencyRecord,
> {
    match existing {
        None => Some(IdempotencyRecord { job_id, status: IdempotencyStatus::Processing }),
        Some(_) => None,
    }
}

/// Claiming a key: only a key with nothing stored can be claimed, and the
/// claim stores the job as processing. `None` means the claim is refused and
/// nothing is written.
pub fn claim(existing: Option<IdempotencyRecord>, job_id: JobId) -> (r: Option<IdempotencyRecord>)
    ensures
        r == spec_claim(existing, job_id),
{
    match existing {
        None => Some(IdempotencyRecord { job_id, status: IdempotencyStatus::Processing }),
        Some(_) => None,
    }
}

pub open spec fn spec_complete(existing: Option<IdempotencyRecord>, job_id: JobId) -> Option<
    IdempotencyRecord,
> {
    match existing {
        Some(r) => if r.job_id == job_id {
            Some(IdempotencyRecord { job_id, status: IdempotencyStatus::Completed })
        } else {
            None
        },
        None => None,
    }
}

/// Completing a key: only the job that holds it can complete it. `None`
/// means the completion is refused and nothing is written.
pub fn complete(existing: Option<IdempotencyRecord>, job_id: JobId) -> (r: Option<
    IdempotencyRecord,
>)
    ensures
        r == spec_complete(existing, job_id),
{
    match existing {
        Some(record) => if record.job_id == job_id {
            Some(IdempotencyRecord { job_id, status: IdempotencyStatus::Completed })
        } else {
            None
        },
        None => None,
    }
}

/// A key can be claimed only once: after one claim succeeds, every later
/// claim, by any job, is refused, and the key reads as processing.
pub proof fn lemma_claimed_only_once(first: JobId, second: JobId)
    ensures
        spec_claim(None, first) is Some,
        spec_claim(spec_claim(None, first), second) is None,
        spec_state_of(spec_claim(None, first)) == IdempotencyState::Processing,
{
}

/// Only the holder completes a key: a different job's completion is refused,
/// while the holder's marks the key completed, for good.
pub proof fn lemma_only_holder_completes(record: IdempotencyRecord, job_id: JobId)
    ensures
        record.job_id != job_id ==> spec_complete(Some(record), job_id) is None,
        record.job_id == job_id ==> spec_state_of(spec_complete(Some(record), job_id))
            == IdempotencyState::Completed,
        spec_claim(spec_complete(Some(record), job_id), job_id) is None || spec_complete(
            Some(record),
            job_id,
        ) is None,
{
}

} // verus!
