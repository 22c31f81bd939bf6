use vstd::prelude::*;
use vstd::string::{StrSliceExecFns, StringExecFns};

use crate::ids::{parse_uuid, uuid_string, uuid_text};
use crate::job::JobId;
use crate::repeat::RepeatableJobId;
use crate::text::{append_decimal, colon_free, decimal, find_colon, first_colon_at};

verus! {

/// List of job ids waiting to be claimed.
pub const WAITING_QUEUE: &'static str = "jobrail:queue:waiting";

/// List of job ids claimed by a worker.
pub const ACTIVE_QUEUE: &'static str = "jobrail:queue:active";

/// Sorted set of job ids waiting for a retry, scored by the retry time.
pub const DELAYED_QUEUE: &'static str = "jobrail:queue:delayed";

/// Sorted set of job ids waiting for their run time, scored by it.
pub const SCHEDULED_QUEUE: &'static str = "jobrail:queue:scheduled";

/// Sorted set of leases, scored by the time they run out.
pub const PROCESSING_QUEUE: &'static str = "jobrail:queue:processing";

/// Set of repeatable job ids.
pub const REPEATABLE_SET: &'static str = "jobrail:queue:repeatable";

/// Sorted set of enabled repeatable job ids, scored by their next run.
pub const REPEATABLE_SCHEDULE: &'static str = "jobrail:queue:repeatable:schedule";

/// Sorted set of all job ids, scored by the time they were saved.
pub const JOB_INDEX: &'static str = "jobrail:jobs:index";

/// Seconds an occurrence marker of a repeatable job is kept.
pub const OCCURRENCE_TTL_SECONDS: u64 = 86400;

pub open spec fn spec_job_key(id: JobId) -> Seq<char> {
    "jobrail:job:"@ + uuid_text(id.0)
}

pub open spec fn spec_lease_member(id: JobId, token: Seq<char>) -> Seq<char> {
    uuid_text(id.0) + ":"@ + token
}

pub open spec fn spec_idempotency_key(key: Seq<char>) -> Seq<char> {
    "jobrail:idempotency:"@ + key
}

pub open spec fn spec_repeat_key(id: RepeatableJobId) -> Seq<char> {
    "jobrail:repeat:"@ + uuid_text(id.0)
}

pub open spec fn spec_occurrence_key(id: RepeatableJobId, run_at: u64) -> Seq<char> {
    "jobrail:repeat:occurrence:"@ + uuid_text(id.0) + ":"@ + decimal(run_at as nat)
}

pub open spec fn spec_attempt_key(id: JobId, attempt: u32) -> Seq<char> {
    "jobrail:job:"@ + uuid_text(id.0) + ":attempt:"@ + decimal(attempt as nat)
}

pub open spec fn spec_attempts_key(id: JobId) -> Seq<char> {
    "jobrail:job:"@ + uuid_text(id.0) + ":attempts"@
}

/// The key that holds a job.
pub fn job_key(id: JobId) -> (r: String)
    ensures
        r@ == spec_job_key(id),
{
    String::from_str("jobrail:job:").concat(uuid_string(id.0).as_str())
}

/// The member that stands for a worker's lease on a job: the job id, a
/// colon and the worker's token.
pub fn lease_member(id: JobId, token: &str) -> (r: String)
    ensures
        r@ == spec_lease_member(id, token@),
{
    let r = uuid_string(id.0).concat(":").concat(token);
    proof {
        assert(r@ =~= spec_lease_member(id, token@));
    }
    r
}

/// The key that records an idempotency key.
pub fn idempotency_key(key: &str) -> (r: String)
    ensures
        r@ == spec_idempotency_key(key@),
{
    String::from_str("jobrail:idempotency:").concat(key)
}

/// The key that holds a repeatable job.
pub fn repeat_key(id: RepeatableJobId) -> (r: String)
    ensures
        r@ == spec_repeat_key(id),
{
    String::from_str("jobrail:repeat:").concat(uuid_string(id.0).as_str())
}

/// The key that marks one occurrence of a repeatable job as created.
pub fn occurrence_key(id: RepeatableJobId, run_at: u64) -> (r: String)
    ensures
        r@ == spec_occurrence_key(id, run_at),
{
    let mut r = String::from_str("jobrail:repeat:occurrence:").concat(
        uuid_string(id.0).as_str(),
    ).concat(":");
    append_decimal(&mut r, run_at);
    proof {
        assert(r@ =~= spec_occurrence_key(id, run_at));
    }
    r
}

/// The key that holds one attempt of a job.
pub fn attempt_key(id: JobId, attempt: u32) -> (r: String)
    ensures
        r@ == spec_attempt_key(id, attempt),
{
    let mut r = String::from_str("jobrail:job:").concat(uuid_string(id.0).as_str()).concat(
        ":attempt:",
    );
    append_decimal(&mut r, attempt as u64);
    proof {
        assert(r@ =~= spec_attempt_key(id, attempt));
    }
    r
}

/// The key of the list of a job's attempts.
pub fn attempts_key(id: JobId) -> (r: String)
    ensures
        r@ == spec_attempts_key(id),
{
    let r = String::from_str("jobrail:job:").concat(uuid_string(id.0).as_str()).concat(
        ":attempts",
    );
    proof {
        assert(r@ =~= spec_attempts_key(id));
    }
    r
}

/// The job whose lease a member stands for: the UUID before the member's
/// first colon. A member built by `lease_member` gives its job back.
pub fn lease_job_id(member: &str) -> (r: Option<JobId>)
    ensures
        colon_free(member@) ==> r is None,
        forall|i: int|
            first_colon_at(member@, i) ==> r == match crate::ids::uuid_parse(member@.take(i)) {
                Some(x) => Some(JobId(x)),
                None => None,
            },
        forall|id: JobId, token: Seq<char>|
            member@ == spec_lease_member(id, token) ==> r == Some(id),
{
    proof {
        assert forall|id: JobId, token: Seq<char>|
            member@ == spec_lease_member(id, token) implies first_colon_at(member@, 36)
            && member@.take(36) == uuid_text(id.0) by {
            crate::ids::lemma_uuid_text_has_no_colon(id.0);
            assert(member@.take(36) =~= uuid_text(id.0));
            reveal_strlit(":");
            assert(member@[36] == ':');
        }
    }
    match find_colon(member) {
        None => None,
        Some(i) => {
            let prefix = member.substring_char(0, i);
            assert(prefix@ =~= member@.take(i as int));
            proof {
                assert forall|j: int| first_colon_at(member@, j) implies j == i by {
                    crate::text::lemma_first_colon_unique(member@, i as int, j);
                }
            }
            match parse_uuid(prefix) {
                Some(x) => Some(JobId(x)),
                None => None,
            }
        },
    }
}

/// Two decimal texts are the same only for the same number.
proof fn lemma_decimal_injective(a: nat, b: nat)
    requires
        decimal(a) == decimal(b),
    ensures
        a == b,
{
    crate::text::lemma_decimal_facts(a);
    crate::text::lemma_decimal_facts(b);
}

/// A repeatable job's runs at two different times are marked under two
/// different keys, so marking one run as created never blocks another.
pub proof fn lemma_occurrence_keys_differ(id: RepeatableJobId, a: u64, b: u64)
    requires
        a != b,
    ensures
        spec_occurrence_key(id, a) != spec_occurrence_key(id, b),
{
    let prefix = "jobrail:repeat:occurrence:"@ + uuid_text(id.0) + ":"@;
    let ka = spec_occurrence_key(id, a);
    let kb = spec_occurrence_key(id, b);
    if ka == kb {
        assert(ka =~= prefix + decimal(a as nat));
        assert(kb =~= prefix + decimal(b as nat));
        assert(ka.subrange(prefix.len() as int, ka.len() as int) =~= decimal(a as nat));
        assert(kb.subrange(prefix.len() as int, kb.len() as int) =~= decimal(b as nat));
        lemma_decimal_injective(a as nat, b as nat);
    }
}

/// Each attempt of a job is kept under a key of its own.
pub proof fn lemma_attempt_keys_differ(id: JobId, a: u32, b: u32)
    requires
        a != b,
    ensures
        spec_attempt_key(id, a) != spec_attempt_key(id, b),
{
    let prefix = "jobrail:job:"@ + uuid_text(id.0) + ":attempt:"@;
    let ka = spec_attempt_key(id, a);
    let kb = spec_attempt_key(id, b);
    if ka == kb {
        assert(ka =~= prefix + decimal(a as nat));
        assert(kb =~= prefix + decimal(b as nat));
        assert(ka.subrange(prefix.len() as int, ka.len() as int) =~= decimal(a as nat));
        assert(kb.subrange(prefix.len() as int, kb.len() as int) =~= decimal(b as nat));
        lemma_decimal_injective(a as nat, b as nat);
    }
}

} // verus!
