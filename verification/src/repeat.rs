use vstd::prelude::*;
use vstd::string::StringExecFns;

verus! {

/// Identifier of a repeatable job: the 128 bits of a UUID.
#[derive(Clone, Copy, Debug, PartialEq, Eq, Hash, Structural)]
pub struct RepeatableJobId(pub u128);

/// How often a repeatable job runs.
#[derive(Clone, Copy, Debug, PartialEq, Eq, Structural)]
pub enum RepeatSchedule {
    EveryMillis(u64),
}

/// A job that the scheduler creates again and again.
#[derive(Debug)]
pub struct RepeatableJob {
    pub id: RepeatableJobId,
    pub name: String,
    pub payload: serde_json::Value,
    pub schedule: RepeatSchedule,
    pub enabled: bool,
    pub next_run_at: Option<u64>,
}

/// The length of one period of a schedule.
pub open spec fn interval(schedule: RepeatSchedule) -> nat {
    match schedule {
        RepeatSchedule::EveryMillis(ms) => ms as nat,
    }
}

/// The run after one at `from_ms`.
pub open spec fn spec_next_run_at(schedule: RepeatSchedule, from_ms: nat) -> nat {
    from_ms + interval(schedule)
}

/// The message of the error the clock gives before the UNIX epoch.
pub open spec fn clock_error_message(detail: Seq<char>) -> Seq<char> {
    "system clock is before UNIX epoch: "@ + detail
}

/// The message when the next run would not fit in a `u64`.
pub open spec fn next_run_overflow_message() -> Seq<char> {
    "next run time does not fit in a u64"@
}

/// What the next run is when the clock gave `clock`: a clock that read
/// before the UNIX epoch gives its error, prefixed with
/// `system clock is before UNIX epoch: `; a reading gives the run one period
/// later, or the overflow error when that does not fit in a `u64`.
pub open spec fn from_clock(
    schedule: RepeatSchedule,
    clock: Result<u64, String>,
    r: Result<u64, String>,
) -> bool {
    match clock {
        Err(detail) => r matches Err(m) && m@ == clock_error_message(detail@),
        Ok(now_ms) => if now_ms + interval(schedule) <= u64::MAX {
            r == Ok::<u64, String>(spec_next_run_at(schedule, now_ms as nat) as u64)
        } else {
            r matches Err(m) && m@ == next_run_overflow_message()
        },
    }
}

impl RepeatableJobId {
    /// A fresh random identifier: a version 4 UUID.
    pub fn new() -> (r: Self)
        ensures
            crate::ids::is_v4(r.0),
    {
        RepeatableJobId(crate::ids::new_uuid())
    }

    /// The identifier's hyphenated text, as it appears in keys and responses.
    pub fn text(&self) -> (r: String)
        ensures
            r@ == crate::ids::uuid_text(self.0),
    {
        crate::ids::uuid_string(self.0)
    }
}

impl RepeatSchedule {
    /// The run one period after `now_ms`.
    pub fn next_run_at(&self, now_ms: u64) -> (r: u64)
        requires
            now_ms + interval(*self) <= u64::MAX,
        ensures
            r == spec_next_run_at(*self, now_ms as nat),
    {
        match self {
            RepeatSchedule::EveryMillis(interval_ms) => now_ms + *interval_ms,
        }
    }

    /// The run one period after the current time. Fails with the clock's
    /// error when the clock reads before the UNIX epoch, and when the sum
    /// does not fit in a `u64`.
    pub fn next_run_at_from_now(&self) -> (r: Result<u64, String>)
        ensures
            r matches Ok(v) ==> v >= interval(*self),
            r matches Err(message) ==> (message@ == next_run_overflow_message() || exists|
                detail: Seq<char>,
            | message@ == clock_error_message(detail)),
            interval(*self) == 0 ==> (r matches Err(message) ==> exists|detail: Seq<char>|
                message@ == clock_error_message(detail)),
            exists|clock: Result<u64, String>| from_clock(*self, clock, r),
    {
        let clock = crate::clock::unix_time_ms();
        let ghost read = clock;
        let r = self.next_run_from_clock(clock);
        assert(from_clock(*self, read, r));
        r
    }

    /// The run one period after what the clock read: a clock that read
    /// before the UNIX epoch gives its error, prefixed with
    /// `system clock is before UNIX epoch: `; a reading gives the run one
    /// period later, or the overflow error.
    pub fn next_run_from_clock(&self, clock: Result<u64, String>) -> (r: Result<u64, String>)
        ensures
            from_clock(*self, clock, r),
    {
        match clock {
            Ok(now_ms) => self.next_run_after(now_ms),
            Err(detail) => {
                let message = String::from_str("system clock is before UNIX epoch: ").concat(
                    detail.as_str(),
                );
                proof {
                    reveal_strlit("system clock is before UNIX epoch: ");
                    assert(message@ == clock_error_message(detail@));
                }
                Err(message)
            },
        }
    }

    /// The run one period after `now_ms`, or the overflow error when it does
    /// not fit in a `u64`.
    pub fn next_run_after(&self, now_ms: u64) -> (r: Result<u64, String>)
        ensures
            now_ms + interval(*self) <= u64::MAX ==> r == Ok::<u64, String>(
                spec_next_run_at(*self, now_ms as nat) as u64,
            ),
            now_ms + interval(*self) > u64::MAX ==> (r matches Err(m) && m@
                == next_run_overflow_message()),
    {
        match self {
            RepeatSchedule::EveryMillis(interval_ms) => {
                if now_ms > u64::MAX - *interval_ms {
                    let message = String::from_str("next run time does not fit in a u64");
                    Err(message)
                } else {
                    Ok(now_ms + *interval_ms)
                }
            },
        }
    }
}

impl Clone for RepeatableJob {
    fn clone(&self) -> (r: Self)
        ensures
            r == *self,
    {
        RepeatableJob {
            id: self.id,
            name: self.name.clone(),
            payload: self.payload.clone(),
            schedule: self.schedule,
            enabled: self.enabled,
            next_run_at: self.next_run_at,
        }
    }
}

impl RepeatableJob {
    /// A new, enabled repeatable job with a fresh identifier and no run
    /// planned yet.
    pub fn new(name: String, payload: serde_json::Value, schedule: RepeatSchedule) -> (r: Self)
        ensures
            r.name == name,
            r.payload == payload,
            r.schedule == schedule,
            r.enabled,
            r.next_run_at is None,
            crate::ids::is_v4(r.id.0),
    {
        RepeatableJob {
            id: RepeatableJobId::new(),
            name,
            payload,
            schedule,
            enabled: true,
            next_run_at: None,
        }
    }
}

/// Each run of a schedule lies exactly one period after the previous one, so
/// runs of a schedule with a positive period move strictly forward.
pub proof fn lemma_next_run_moves_forward(schedule: RepeatSchedule, from_ms: nat)
    requires
        interval(schedule) > 0,
    ensures
        spec_next_run_at(schedule, from_ms) > from_ms,
        spec_next_run_at(schedule, spec_next_run_at(schedule, from_ms)) == from_ms + 2 * interval(
            schedule,
        ),
{
}

} // verus!
