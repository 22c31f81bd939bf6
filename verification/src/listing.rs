//! Listing jobs a page at a time, newest first. Jobs are indexed by the time
//! they were saved; a page resumes strictly after the entry its cursor
//! names. The listing is a state machine: the application reads the index
//! and the jobs it asks for and reports them back.
use vstd::prelude::*;

use crate::cursor::{decode_cursor, encode_cursor, spec_encode_cursor, CursorError};
use crate::ids::{parse_uuid, uuid_parse, uuid_text};
use crate::job::{Job, JobId, JobState};
use crate::text::{less_than, text_less};

verus! {

/// The largest page.
pub const MAX_PAGE_SIZE: usize = 100;

/// An accepted index entry: the member, its score and the job it names.
#[derive(Debug)]
pub struct ListEntry {
    pub member: String,
    pub score: u64,
    pub id: JobId,
}

impl Clone for ListEntry {
    fn clone(&self) -> (r: Self)
        ensures
            r == *self,
    {
        ListEntry { member: self.member.clone(), score: self.score, id: self.id }
    }
}

/// One page of jobs.
#[derive(Debug)]
pub struct JobPage {
    pub jobs: Vec<Job>,
    pub next_cursor: Option<String>,
    pub has_more: bool,
}

/// Why a listing failed.
#[derive(Clone, Copy, Debug, PartialEq, Eq, Structural)]
pub enum ListError {
    /// The cursor could not be read.
    Cursor(CursorError),
    /// The index holds a member that is not a job id.
    InvalidJobId,
}

/// Where a listing stands.
#[derive(Clone, Copy, Debug, PartialEq, Eq, Structural)]
pub enum ListPhase {
    AwaitTop,
    AwaitSameScore,
    AwaitBelow,
    AwaitStates,
    AwaitJobs,
    Done,
}

/// What the application reports back.
#[derive(Debug)]
pub enum ListEvent {
    /// Index entries with their scores, highest score first.
    Entries(Vec<(String, u64)>),
    /// The members that share the cursor's score, in ascending order.
    Members(Vec<String>),
    /// For each requested id, the state of the stored job, if there is one.
    States(Vec<Option<JobState>>),
    /// For each requested id, the stored job, if there is one.
    Jobs(Vec<Option<Job>>),
}

/// What the application is asked to do next.
#[derive(Debug)]
pub enum ListAction {
    /// Read the `count` highest entries of the index.
    FetchTop { count: usize },
    /// Read the members of the index scored exactly `score`.
    FetchSameScore { score: u64 },
    /// Read up to `count` entries scored strictly below `score`, highest first.
    FetchBelow { score: u64, count: usize },
    /// Read the states of these jobs.
    LoadStates { ids: Vec<JobId> },
    /// Read these jobs.
    LoadJobs { ids: Vec<JobId> },
    /// The listing is done.
    Page(JobPage),
    /// The listing failed.
    Fail(ListError),
}

/// A listing in progress.
#[derive(Debug)]
pub struct JobListing {
    pub phase: ListPhase,
    /// The page size, between 1 and 100.
    pub limit: usize,
    pub filter: Option<JobState>,
    /// The score and member after which the listing continues.
    pub cursor: Option<(u64, String)>,
    /// The entries accepted so far.
    pub entries: Vec<ListEntry>,
    /// The entries of the current batch.
    pub batch: Vec<(String, u64)>,
    /// The job ids of the batch's leading members that are job ids.
    pub batch_ids: Vec<JobId>,
    /// How many entries the current batch was asked for.
    pub remaining: usize,
    /// Whether more entries matched than fit on the page.
    pub has_more: bool,
}

/// The page size a requested limit gives: at least 1 and at most 100.
pub open spec fn clamp_limit(limit: usize) -> usize {
    if limit < 1 {
        1
    } else if limit > 100 {
        100
    } else {
        limit
    }
}

/// Whether a job state passes the filter.
pub open spec fn passes(filter: Option<JobState>, state: JobState) -> bool {
    match filter {
        None => true,
        Some(f) => f == state,
    }
}

pub open spec fn entry_view(e: ListEntry) -> (Seq<char>, u64, JobId) {
    (e.member@, e.score, e.id)
}

pub open spec fn pair_view(e: (String, u64)) -> (Seq<char>, u64) {
    (e.0@, e.1)
}

/// The members that share the cursor's score and come after the cursor in
/// the listing's order (descending), at most `n` of them.
pub open spec fn before_cursor(members: Seq<Seq<char>>, cursor_member: Seq<char>, n: nat) -> Seq<
    Seq<char>,
>
    decreases members.len(),
{
    if members.len() == 0 || n == 0 {
        Seq::empty()
    } else if text_less(members.last(), cursor_member) {
        seq![members.last()] + before_cursor(members.drop_last(), cursor_member, (n - 1) as nat)
    } else {
        before_cursor(members.drop_last(), cursor_member, n)
    }
}

/// A page that resumes after a cursor holds, from the cursor's score, only
/// members that come after the cursor's member: the pages do not overlap.
pub proof fn lemma_resumes_after_cursor(members: Seq<Seq<char>>, cursor_member: Seq<char>, n: nat)
    ensures
        before_cursor(members, cursor_member, n).len() <= n,
        forall|i: int|
            0 <= i < before_cursor(members, cursor_member, n).len() ==> text_less(
                #[trigger] before_cursor(members, cursor_member, n)[i],
                cursor_member,
            ),
    decreases members.len(),
{
    if members.len() > 0 && n > 0 {
        if text_less(members.last(), cursor_member) {
            lemma_resumes_after_cursor(members.drop_last(), cursor_member, (n - 1) as nat);
            let rest = before_cursor(members.drop_last(), cursor_member, (n - 1) as nat);
            assert forall|i: int|
                0 <= i < before_cursor(members, cursor_member, n).len() implies text_less(
                #[trigger] before_cursor(members, cursor_member, n)[i],
                cursor_member,
            ) by {
                if i > 0 {
                    assert(before_cursor(members, cursor_member, n)[i] == rest[i - 1]);
                }
            }
        } else {
            lemma_resumes_after_cursor(members.drop_last(), cursor_member, n);
        }
    }
}

/// The entries accepted after the first `k` of the batch: an entry is
/// accepted, under its id's text, when its job exists and passes the filter,
/// until `cap` entries are held; reaching a member that is not a job id
/// before that fails.
pub open spec fn accept_upto(
    base: Seq<(Seq<char>, u64, JobId)>,
    batch: Seq<(Seq<char>, u64)>,
    ids: Seq<JobId>,
    states: Seq<Option<JobState>>,
    filter: Option<JobState>,
    cap: nat,
    k: nat,
) -> Option<Seq<(Seq<char>, u64, JobId)>>
    decreases k,
{
    if k == 0 {
        Some(base)
    } else {
        match accept_upto(base, batch, ids, states, filter, cap, (k - 1) as nat) {
            None => None,
            Some(acc) => if acc.len() >= cap {
                Some(acc)
            } else if k - 1 >= ids.len() {
                None
            } else {
                match states[k - 1] {
                    Some(s) => if passes(filter, s) {
                        Some(acc.push((uuid_text(ids[k - 1].0), batch[k - 1].1, ids[k - 1])))
                    } else {
                        Some(acc)
                    },
                    None => Some(acc),
                }
            },
        }
    }
}

/// Accepting entries of a batch never drops an entry already held and
/// never holds more than the cap.
pub proof fn lemma_accept_grows(
    base: Seq<(Seq<char>, u64, JobId)>,
    batch: Seq<(Seq<char>, u64)>,
    ids: Seq<JobId>,
    states: Seq<Option<JobState>>,
    filter: Option<JobState>,
    cap: nat,
    k: nat,
)
    requires
        base.len() <= cap,
    ensures
        accept_upto(base, batch, ids, states, filter, cap, k) matches Some(acc) ==> acc.len()
            <= cap && acc.len() >= base.len(),
    decreases k,
{
    if k > 0 {
        lemma_accept_grows(base, batch, ids, states, filter, cap, (k - 1) as nat);
    }
}

/// Whether each accepted entry is held under its id's text.
pub open spec fn canonical(entries: Seq<(Seq<char>, u64, JobId)>) -> bool {
    forall|i: int| 0 <= i < entries.len() ==> (#[trigger] entries[i]).0 == uuid_text(entries[i].2.0)
}

/// Accepting entries keeps each of them under its id's text.
proof fn lemma_accept_canonical(
    base: Seq<(Seq<char>, u64, JobId)>,
    batch: Seq<(Seq<char>, u64)>,
    ids: Seq<JobId>,
    states: Seq<Option<JobState>>,
    filter: Option<JobState>,
    cap: nat,
    k: nat,
)
    requires
        canonical(base),
    ensures
        accept_upto(base, batch, ids, states, filter, cap, k) matches Some(acc) ==> canonical(acc),
    decreases k,
{
    if k > 0 {
        lemma_accept_canonical(base, batch, ids, states, filter, cap, (k - 1) as nat);
        if let Some(acc) = accept_upto(base, batch, ids, states, filter, cap, k) {
            let prev = accept_upto(base, batch, ids, states, filter, cap, (k - 1) as nat).unwrap();
            assert forall|i: int| 0 <= i < acc.len() implies (#[trigger] acc[i]).0 == uuid_text(
                acc[i].2.0,
            ) by {
                if i < prev.len() {
                    assert(acc[i] == prev[i]);
                }
            }
        }
    }
}

impl JobListing {
    /// What a listing holds in each phase.
    pub open spec fn wf(&self) -> bool {
        &&& 1 <= self.limit <= MAX_PAGE_SIZE
        &&& self.entries@.len() <= self.limit + 1
        &&& (self.phase == ListPhase::AwaitTop || self.phase == ListPhase::AwaitSameScore
            || self.phase == ListPhase::AwaitBelow || self.phase == ListPhase::AwaitStates)
            ==> (self.entries@.len() < self.limit + 1 && 0 < self.remaining
            && self.remaining == self.limit + 1 - self.entries@.len())
        &&& (self.phase == ListPhase::AwaitSameScore || self.phase == ListPhase::AwaitBelow)
            ==> self.cursor is Some
        &&& self.phase == ListPhase::AwaitTop ==> self.cursor is None
        &&& self.phase == ListPhase::AwaitBelow ==> self.batch@.len() < self.remaining
        &&& self.phase == ListPhase::AwaitStates ==> (0 < self.batch@.len()
            && self.batch_ids@.len() <= self.batch@.len())
        &&& self.phase == ListPhase::AwaitJobs ==> self.entries@.len() <= self.limit
        &&& (self.phase == ListPhase::AwaitJobs && self.has_more) ==> self.entries@.len()
            == self.limit
        &&& canonical(self.entries_view())
    }

    pub open spec fn entries_view(&self) -> Seq<(Seq<char>, u64, JobId)> {
        self.entries@.map_values(|e: ListEntry| entry_view(e))
    }

    pub open spec fn batch_view(&self) -> Seq<(Seq<char>, u64)> {
        self.batch@.map_values(|e: (String, u64)| pair_view(e))
    }

    /// What one step gives, phase by phase: the next listing and action for
    /// the report `event`.
    pub open spec fn steps(&self, event: ListEvent, r: (JobListing, ListAction)) -> bool {
        &&& (self.phase == ListPhase::AwaitTop) ==> (event matches ListEvent::Entries(b)
            && processes(
            b@.map_values(|e: (String, u64)| pair_view(e)),
            self.entries_view(),
            self.limit,
            r,
        ))
        &&& (self.phase == ListPhase::AwaitSameScore) ==> (event matches ListEvent::Members(ms)
            && {
            let score = self.cursor.unwrap().0;
            let picked = before_cursor(
                ms@.map_values(|m: String| m@),
                self.cursor.unwrap().1@,
                self.remaining as nat,
            ).map_values(|m: Seq<char>| (m, score));
            if picked.len() < self.remaining {
                &&& r.0.phase == ListPhase::AwaitBelow
                &&& r.0.entries_view() == self.entries_view()
                &&& r.0.batch_view() == picked
                &&& r.1 == (ListAction::FetchBelow {
                    score,
                    count: (self.remaining - picked.len()) as usize,
                })
            } else {
                processes(picked, self.entries_view(), self.limit, r)
            }
        })
        &&& (self.phase == ListPhase::AwaitBelow) ==> (event matches ListEvent::Entries(b)
            && processes(
            self.batch_view() + b@.map_values(|e: (String, u64)| pair_view(e)),
            self.entries_view(),
            self.limit,
            r,
        ))
        &&& (self.phase == ListPhase::AwaitStates) ==> (event matches ListEvent::States(states)
            && match accept_upto(
            self.entries_view(),
            self.batch_view(),
            self.batch_ids@,
            states@,
            self.filter,
            (self.limit + 1) as nat,
            self.batch@.len(),
        ) {
            None => r.0.phase == ListPhase::Done && r.1 == ListAction::Fail(
                ListError::InvalidJobId,
            ),
            Some(accepted) => {
                &&& cursor_view(r.0.cursor) == last_cursor(self.batch_view())
                &&& if self.batch@.len() < self.remaining || accepted.len() >= self.limit + 1 {
                    finishes(accepted, self.limit, r)
                } else {
                    fetches(
                        last_cursor(self.batch_view()),
                        (self.limit + 1 - accepted.len()) as usize,
                        r,
                    ) && r.0.entries_view() == accepted
                }
            },
        })
        &&& (self.phase == ListPhase::AwaitJobs) ==> (event matches ListEvent::Jobs(loaded) && {
            &&& r.0.phase == ListPhase::Done
            &&& r.1 matches ListAction::Page(page) && {
                &&& page.jobs@ == page_jobs(loaded@, self.filter)
                &&& page.jobs@.len() <= self.limit
                &&& forall|i: int|
                    0 <= i < page.jobs@.len() ==> passes(self.filter, #[trigger] page.jobs@[i].state)
                &&& page.has_more == self.has_more
                &&& forall|i: int|
                    0 <= i < page.jobs@.len() ==> (self.filter matches Some(f) ==> (
                    #[trigger] page.jobs@[i]).state == f)
                &&& self.has_more ==> (page.next_cursor matches Some(c) && c@
                    == spec_encode_cursor(
                    self.entries_view().last().1,
                    uuid_text(self.entries_view().last().2.0),
                ))
                &&& !self.has_more ==> page.next_cursor is None
            }
        })
    }

    /// Whether an event is the report the listing waits for.
    pub open spec fn spec_accepts(&self, event: ListEvent) -> bool {
        match (self.phase, event) {
            (ListPhase::AwaitTop, ListEvent::Entries(_)) => true,
            (ListPhase::AwaitSameScore, ListEvent::Members(_)) => true,
            (ListPhase::AwaitBelow, ListEvent::Entries(_)) => true,
            (ListPhase::AwaitStates, ListEvent::States(states)) => states@.len()
                == self.batch_ids@.len(),
            (ListPhase::AwaitJobs, ListEvent::Jobs(jobs)) => jobs@.len() == self.entries@.len(),
            _ => false,
        }
    }
}

/// Whether the leading ids were read from the leading members of a batch,
/// up to the first member that is not a job id.
pub open spec fn ids_of_prefix(batch: Seq<(Seq<char>, u64)>, ids: Seq<JobId>) -> bool {
    &&& ids.len() <= batch.len()
    &&& forall|i: int| 0 <= i < ids.len() ==> uuid_parse(#[trigger] batch[i].0) == Some(ids[i].0)
    &&& ids.len() < batch.len() ==> uuid_parse(batch[ids.len() as int].0) is None
}

/// The jobs of a page: those that exist and pass the filter, in order.
pub open spec fn page_jobs(loaded: Seq<Option<Job>>, filter: Option<JobState>) -> Seq<Job>
    decreases loaded.len(),
{
    if loaded.len() == 0 {
        Seq::empty()
    } else {
        let rest = page_jobs(loaded.drop_last(), filter);
        match loaded.last() {
            Some(j) => if passes(filter, j.state) {
                rest.push(j)
            } else {
                rest
            },
            None => rest,
        }
    }
}

/// Every job on a page passes the page's state filter, and a page holds no
/// more jobs than were read.
pub proof fn lemma_page_jobs_pass(loaded: Seq<Option<Job>>, filter: Option<JobState>)
    ensures
        page_jobs(loaded, filter).len() <= loaded.len(),
        forall|i: int|
            0 <= i < page_jobs(loaded, filter).len() ==> passes(
                filter,
                #[trigger] page_jobs(loaded, filter)[i].state,
            ),
    decreases loaded.len(),
{
    if loaded.len() > 0 {
        lemma_page_jobs_pass(loaded.drop_last(), filter);
    }
}

/// The listing after the accepted entries are complete: it keeps the first
/// `limit` of them, notes whether there were more, and asks for their jobs.
pub open spec fn finishes(
    before: Seq<(Seq<char>, u64, JobId)>,
    limit: usize,
    r: (JobListing, ListAction),
) -> bool {
    let kept = if before.len() > limit {
        before.take(limit as int)
    } else {
        before
    };
    &&& r.0.phase == ListPhase::AwaitJobs
    &&& r.0.has_more == (before.len() > limit)
    &&& r.0.entries_view() == kept
    &&& r.1 matches ListAction::LoadJobs { ids } && ids@ == kept.map_values(
        |e: (Seq<char>, u64, JobId)| e.2,
    )
}

/// The listing asks for the states of the jobs of a non-empty batch.
pub open spec fn loads_states(batch: Seq<(Seq<char>, u64)>, r: (JobListing, ListAction)) -> bool {
    &&& r.0.phase == ListPhase::AwaitStates
    &&& r.0.batch_view() == batch
    &&& ids_of_prefix(batch, r.0.batch_ids@)
    &&& r.1 matches ListAction::LoadStates { ids } && ids@ == r.0.batch_ids@
}

/// The listing asks for the next batch of the index: from the top without
/// a cursor, else the members sharing the cursor's score.
pub open spec fn fetches(cursor: Option<(u64, Seq<char>)>, remaining: usize, r: (
    JobListing,
    ListAction,
)) -> bool {
    &&& r.0.remaining == remaining
    &&& cursor_view(r.0.cursor) == cursor
    &&& cursor is None ==> (r.0.phase == ListPhase::AwaitTop && r.1 == (ListAction::FetchTop {
        count: remaining,
    }))
    &&& cursor matches Some((score, _)) ==> (r.0.phase == ListPhase::AwaitSameScore && r.1 == (
    ListAction::FetchSameScore { score }))
}

pub open spec fn cursor_view(c: Option<(u64, String)>) -> Option<(u64, Seq<char>)> {
    match c {
        None => None,
        Some((s, m)) => Some((s, m@)),
    }
}

/// The listing goes on with a batch: an empty batch ends it, another has its
/// job states read.
pub open spec fn processes(
    batch: Seq<(Seq<char>, u64)>,
    entries: Seq<(Seq<char>, u64, JobId)>,
    limit: usize,
    r: (JobListing, ListAction),
) -> bool {
    if batch.len() == 0 {
        finishes(entries, limit, r)
    } else {
        loads_states(batch, r) && r.0.entries_view() == entries
    }
}

/// What stays the same through a step.
pub open spec fn keeps(old: JobListing, new: JobListing) -> bool {
    new.limit == old.limit && new.filter == old.filter
}

/// Once a batch has reached a member that is not a job id, reading further
/// members does not recover the listing.
pub proof fn lemma_accept_none_stays(
    base: Seq<(Seq<char>, u64, JobId)>,
    batch: Seq<(Seq<char>, u64)>,
    ids: Seq<JobId>,
    states: Seq<Option<JobState>>,
    filter: Option<JobState>,
    cap: nat,
    k: nat,
    m: nat,
)
    requires
        k <= m,
        accept_upto(base, batch, ids, states, filter, cap, k) is None,
    ensures
        accept_upto(base, batch, ids, states, filter, cap, m) is None,
    decreases m,
{
    if k < m {
        lemma_accept_none_stays(base, batch, ids, states, filter, cap, k, (m - 1) as nat);
    }
}

/// Accepts the entries of a batch whose jobs exist and pass the filter,
/// until `cap` are held; `None` when a member that is not a job id is
/// reached first.
fn accept(
    entries: Vec<ListEntry>,
    batch: &Vec<(String, u64)>,
    ids: &Vec<JobId>,
    states: &Vec<Option<JobState>>,
    filter: Option<JobState>,
    cap: usize,
) -> (r: Option<Vec<ListEntry>>)
    requires
        states@.len() == ids@.len(),
        ids@.len() <= batch@.len(),
        entries@.len() <= cap,
    ensures
        match accept_upto(
            entries@.map_values(|e: ListEntry| entry_view(e)),
            batch@.map_values(|e: (String, u64)| pair_view(e)),
            ids@,
            states@,
            filter,
            cap as nat,
            batch@.len(),
        ) {
            None => r is None,
            Some(acc) => r matches Some(v) && v@.map_values(|e: ListEntry| entry_view(e)) == acc,
        },
{
    let ghost base = entries@.map_values(|e: ListEntry| entry_view(e));
    let ghost bv = batch@.map_values(|e: (String, u64)| pair_view(e));
    let mut acc = entries;
    let mut k: usize = 0;
    while k < batch.len()
        invariant
            k <= batch@.len(),
            states@.len() == ids@.len(),
            ids@.len() <= batch@.len(),
            acc@.len() <= cap,
            base.len() <= cap,
            base == entries@.map_values(|e: ListEntry| entry_view(e)),
            bv == batch@.map_values(|e: (String, u64)| pair_view(e)),
            accept_upto(base, bv, ids@, states@, filter, cap as nat, k as nat) == Some(
                acc@.map_values(|e: ListEntry| entry_view(e)),
            ),
        decreases batch@.len() - k,
    {
        if acc.len() >= cap {
        } else if k >= ids.len() {
            proof {
                assert(accept_upto(base, bv, ids@, states@, filter, cap as nat, (k + 1) as nat)
                    is None);
                lemma_accept_none_stays(
                    base,
                    bv,
                    ids@,
                    states@,
                    filter,
                    cap as nat,
                    (k + 1) as nat,
                    batch@.len(),
                );
            }
            return None;
        } else {
            match states[k] {
                Some(state) => {
                    let keep = match filter {
                        None => true,
                        Some(f) => f == state,
                    };
                    if keep {
                        let entry = ListEntry {
                            member: ids[k].text(),
                            score: batch[k].1,
                            id: ids[k],
                        };
                        let ghost before = acc@.map_values(|e: ListEntry| entry_view(e));
                        acc.push(entry);
                        assert(acc@.map_values(|e: ListEntry| entry_view(e)) =~= before.push(
                            (uuid_text(ids@[k as int].0), bv[k as int].1, ids@[k as int]),
                        ));
                    }
                },
                None => {},
            }
        }
        k = k + 1;
    }
    Some(acc)
}

/// What a cursor decodes to.
pub open spec fn spec_decode(text: Seq<char>) -> Result<(u64, Seq<char>), CursorError> {
    if crate::text::colon_free(text) {
        Err(CursorError::Malformed)
    } else {
        crate::cursor::spec_decode_at(
            text,
            choose|i: int| crate::text::first_colon_at(text, i),
        )
    }
}

/// Some position of a text that is not colon-free holds its first colon.
proof fn lemma_first_colon_exists(text: Seq<char>)
    requires
        !crate::text::colon_free(text),
    ensures
        exists|i: int| crate::text::first_colon_at(text, i),
    decreases text.len(),
{
    let n = (text.len() - 1) as int;
    let head = text.take(n);
    if crate::text::colon_free(head) {
        let j = choose|j: int| 0 <= j < text.len() && text[j] == ':';
        if j < n {
            assert(head[j] == ':');
        }
        assert(text[n] == ':');
        assert(crate::text::first_colon_at(text, n));
    } else {
        lemma_first_colon_exists(head);
        let i = choose|i: int| crate::text::first_colon_at(head, i);
        assert(head.take(i) =~= text.take(i));
        assert(crate::text::first_colon_at(text, i));
    }
}

/// Decodes a cursor, as `spec_decode` describes.
fn decode(text: &str) -> (r: Result<(u64, String), CursorError>)
    ensures
        match spec_decode(text@) {
            Ok((score, member)) => r matches Ok((s, m)) && s == score && m@ == member,
            Err(e) => r == Err::<(u64, String), CursorError>(e),
        },
{
    proof {
        if !crate::text::colon_free(text@) {
            lemma_first_colon_exists(text@);
        }
    }
    decode_cursor(text)
}

impl JobListing {
    /// Asks for the next batch of the index.
    fn fetch(self) -> (r: (JobListing, ListAction))
        requires
            1 <= self.limit <= MAX_PAGE_SIZE,
            self.entries@.len() < self.limit + 1,
            canonical(self.entries_view()),
        ensures
            fetches(cursor_view(self.cursor), (self.limit + 1 - self.entries@.len()) as usize, r),
            r.0.entries == self.entries,
            r.0.cursor == self.cursor,
            keeps(self, r.0),
            r.0.wf(),
    {
        let remaining = self.limit + 1 - self.entries.len();
        let mut listing = self;
        listing.remaining = remaining;
        match &listing.cursor {
            None => {
                listing.phase = ListPhase::AwaitTop;
                (listing, ListAction::FetchTop { count: remaining })
            },
            Some((score, _)) => {
                let score = *score;
                listing.phase = ListPhase::AwaitSameScore;
                (listing, ListAction::FetchSameScore { score })
            },
        }
    }

    /// Ends the scan: keeps the first `limit` accepted entries and asks for
    /// their jobs.
    fn finish(self) -> (r: (JobListing, ListAction))
        requires
            1 <= self.limit <= MAX_PAGE_SIZE,
            self.entries@.len() <= self.limit + 1,
            canonical(self.entries_view()),
        ensures
            finishes(self.entries_view(), self.limit, r),
            keeps(self, r.0),
            r.0.cursor == self.cursor,
            r.0.wf(),
    {
        let mut listing = self;
        let ghost before = listing.entries_view();
        listing.has_more = listing.entries.len() > listing.limit;
        if listing.has_more {
            listing.entries.truncate(listing.limit);
            assert(listing.entries_view() =~= before.take(listing.limit as int));
        }
        let mut ids: Vec<JobId> = Vec::new();
        let mut i: usize = 0;
        while i < listing.entries.len()
            invariant
                i <= listing.entries@.len(),
                ids@ == listing.entries_view().take(i as int).map_values(
                    |e: (Seq<char>, u64, JobId)| e.2,
                ),
            decreases listing.entries@.len() - i,
        {
            ids.push(listing.entries[i].id);
            assert(listing.entries_view().take(i + 1) =~= listing.entries_view().take(i as int).push(
                listing.entries_view()[i as int],
            ));
            i = i + 1;
        }
        assert(listing.entries_view().take(i as int) =~= listing.entries_view());
        listing.phase = ListPhase::AwaitJobs;
        (listing, ListAction::LoadJobs { ids })
    }

    /// Goes on with a batch of index entries.
    fn process(self, batch: Vec<(String, u64)>) -> (r: (JobListing, ListAction))
        requires
            self.wf(),
            self.entries@.len() < self.limit + 1,
            0 < self.remaining,
            self.remaining == self.limit + 1 - self.entries@.len(),
        ensures
            processes(batch@.map_values(|e: (String, u64)| pair_view(e)), self.entries_view(), self.limit, r),
            keeps(self, r.0),
            r.0.cursor == self.cursor,
            r.0.wf(),
            batch@.len() > 0 ==> r.0.remaining == self.remaining,
    {
        let mut listing = self;
        if batch.len() == 0 {
            return listing.finish();
        }
        let ids = parse_prefix_ids(&batch);
        listing.batch = batch;
        listing.batch_ids = ids.clone();
        listing.phase = ListPhase::AwaitStates;
        (listing, ListAction::LoadStates { ids })
    }

    /// Begins a listing of at most `limit` jobs (clamped to between 1 and
    /// 100) in the given state, if any, after the cursor, if any.
    pub fn start(limit: usize, cursor: Option<String>, filter: Option<JobState>) -> (r: Result<
        (JobListing, ListAction),
        ListError,
    >)
        ensures
            starts(limit, opt_view(cursor), filter, r),
    {
        let limit = if limit < 1 {
            1
        } else if limit > MAX_PAGE_SIZE {
            MAX_PAGE_SIZE
        } else {
            limit
        };
        let cursor = match cursor {
            None => None,
            Some(text) => match decode(text.as_str()) {
                Ok(decoded) => Some(decoded),
                Err(e) => {
                    return Err(ListError::Cursor(e));
                },
            },
        };
        let listing = JobListing {
            phase: ListPhase::AwaitTop,
            limit,
            filter,
            cursor,
            entries: Vec::new(),
            batch: Vec::new(),
            batch_ids: Vec::new(),
            remaining: 0,
            has_more: false,
        };
        Ok(listing.fetch())
    }
}

/// The text of an optional cursor.
pub open spec fn opt_view(cursor: Option<String>) -> Option<Seq<char>> {
    match cursor {
        Some(c) => Some(c@),
        None => None,
    }
}

/// What starting a listing gives: the first fetch, or the cursor's error.
pub open spec fn starts(
    limit: usize,
    cursor: Option<Seq<char>>,
    filter: Option<JobState>,
    r: Result<(JobListing, ListAction), ListError>,
) -> bool {
    &&& cursor is None ==> (r matches Ok(p) && fetches(None, (clamp_limit(limit) + 1) as usize, p))
    &&& cursor matches Some(c) ==> match spec_decode(c) {
        Err(e) => r == Err::<(JobListing, ListAction), ListError>(ListError::Cursor(e)),
        Ok(decoded) => r matches Ok(p) && fetches(
            Some(decoded),
            (clamp_limit(limit) + 1) as usize,
            p,
        ),
    }
    &&& r matches Ok(p) ==> (p.0.limit == clamp_limit(limit) && p.0.filter == filter
        && p.0.entries@.len() == 0 && p.0.wf())
}

/// The cursor a batch leaves behind: its last entry.
pub open spec fn last_cursor(batch: Seq<(Seq<char>, u64)>) -> Option<(u64, Seq<char>)> {
    Some((batch.last().1, batch.last().0))
}

impl JobListing {
    /// Whether the listing can take this event as its next report.
    pub fn accepts(&self, event: &ListEvent) -> (r: bool)
        ensures
            r == self.spec_accepts(*event),
    {
        match (self.phase, event) {
            (ListPhase::AwaitTop, ListEvent::Entries(_)) => true,
            (ListPhase::AwaitSameScore, ListEvent::Members(_)) => true,
            (ListPhase::AwaitBelow, ListEvent::Entries(_)) => true,
            (ListPhase::AwaitStates, ListEvent::States(states)) => states.len()
                == self.batch_ids.len(),
            (ListPhase::AwaitJobs, ListEvent::Jobs(jobs)) => jobs.len() == self.entries.len(),
            _ => false,
        }
    }

    /// One step of the listing: takes the report of the last action and
    /// gives the next state and the next action.
    pub fn step(self, event: ListEvent) -> (r: (JobListing, ListAction))
        requires
            self.wf(),
            self.spec_accepts(event),
        ensures
            r.0.wf(),
            keeps(self, r.0),
            self.steps(event, r),
    {
        let ghost old = self;
        match event {
            ListEvent::Entries(b) => {
                if self.phase == ListPhase::AwaitTop {
                    self.process(b)
                } else {
                    let mut listing = self;
                    let ghost before = listing.batch_view();
                    let mut b = b;
                    let ghost added = b@.map_values(|e: (String, u64)| pair_view(e));
                    listing.batch.append(&mut b);
                    let mut batch: Vec<(String, u64)> = Vec::new();
                    std::mem::swap(&mut batch, &mut listing.batch);
                    assert(batch@.map_values(|e: (String, u64)| pair_view(e)) =~= before + added);
                    listing.process(batch)
                }
            },
            ListEvent::Members(members) => {
                let score = self.cursor.as_ref().unwrap().0;
                let picked = select_before_cursor(
                    &members,
                    self.cursor.as_ref().unwrap().1.as_str(),
                    self.remaining,
                    score,
                );
                let mut listing = self;
                if picked.len() < listing.remaining {
                    let count = listing.remaining - picked.len();
                    listing.batch = picked;
                    listing.phase = ListPhase::AwaitBelow;
                    (listing, ListAction::FetchBelow { score, count })
                } else {
                    listing.process(picked)
                }
            },
            ListEvent::States(states) => {
                let cap = self.limit + 1;
                let mut listing = self;
                let mut entries: Vec<ListEntry> = Vec::new();
                std::mem::swap(&mut entries, &mut listing.entries);
                assert(entries@ == old.entries@);
                let accepted = accept(
                    entries,
                    &listing.batch,
                    &listing.batch_ids,
                    &states,
                    listing.filter,
                    cap,
                );
                match accepted {
                    None => {
                        listing.phase = ListPhase::Done;
                        (listing, ListAction::Fail(ListError::InvalidJobId))
                    },
                    Some(accepted) => {
                        proof {
                            lemma_accept_grows(
                                old.entries_view(),
                                old.batch_view(),
                                old.batch_ids@,
                                states@,
                                old.filter,
                                cap as nat,
                                old.batch@.len(),
                            );
    lemma_accept_canonical(
                                old.entries_view(),
                                old.batch_view(),
                                old.batch_ids@,
                                states@,
                                old.filter,
                                cap as nat,
                                old.batch@.len(),
                            );
                        }
                        let last = listing.batch.len() - 1;
                        let score = listing.batch[last].1;
                        let member = listing.batch[last].0.clone();
                        listing.cursor = Some((score, member));
                        let short = listing.batch.len() < listing.remaining;
                        listing.entries = accepted;
                        if short || listing.entries.len() >= cap {
                            listing.finish()
                        } else {
                            listing.fetch()
                        }
                    },
                }
            },
            ListEvent::Jobs(loaded) => {
                let mut jobs: Vec<Job> = Vec::new();
                let mut i: usize = 0;
                while i < loaded.len()
                    invariant
                        i <= loaded@.len(),
                        jobs@ == page_jobs(loaded@.take(i as int), self.filter),
                    decreases loaded@.len() - i,
                {
                    proof {
                        assert(loaded@.take(i + 1).drop_last() =~= loaded@.take(i as int));
                    }
                    match &loaded[i] {
                        Some(job) => {
                            let keep = match self.filter {
                                None => true,
                                Some(f) => f == job.state,
                            };
                            if keep {
                                jobs.push(job.clone());
                            }
                        },
                        None => {},
                    }
                    i = i + 1;
                }
                proof {
                    assert(loaded@.take(i as int) =~= loaded@);
                    lemma_page_jobs_pass(loaded@, self.filter);
                }
                let next_cursor = if self.has_more {
                    let last = &self.entries[self.entries.len() - 1];
                    Some(encode_cursor(last.score, last.member.as_str()))
                } else {
                    None
                };
                let has_more = self.has_more;
                let mut listing = self;
                listing.phase = ListPhase::Done;
                (listing, ListAction::Page(JobPage { jobs, next_cursor, has_more }))
            },
        }
    }
}

/// The leading members of a batch that are job ids, read as job ids.
fn parse_prefix_ids(batch: &Vec<(String, u64)>) -> (r: Vec<JobId>)
    ensures
        ids_of_prefix(batch@.map_values(|e: (String, u64)| pair_view(e)), r@),
{
    let ghost view = batch@.map_values(|e: (String, u64)| pair_view(e));
    let mut ids: Vec<JobId> = Vec::new();
    let mut i: usize = 0;
    while i < batch.len()
        invariant
            i <= batch@.len(),
            ids@.len() == i,
            view == batch@.map_values(|e: (String, u64)| pair_view(e)),
            forall|k: int| 0 <= k < ids@.len() ==> uuid_parse(#[trigger] view[k].0) == Some(
                ids@[k].0,
            ),
        decreases batch@.len() - i,
    {
        match parse_uuid(batch[i].0.as_str()) {
            Some(x) => {
                ids.push(JobId(x));
                i = i + 1;
            },
            None => {
                return ids;
            },
        }
    }
    ids
}

/// The members sharing the cursor's score that come after it, highest
/// first, at most `n` of them, with the score.
fn select_before_cursor(members: &Vec<String>, cursor_member: &str, n: usize, score: u64) -> (r: Vec<
    (String, u64),
>)
    ensures
        r@.map_values(|e: (String, u64)| pair_view(e)) == before_cursor(
            members@.map_values(|m: String| m@),
            cursor_member@,
            n as nat,
        ).map_values(|m: Seq<char>| (m, score)),
        r@.len() <= n,
{
    let ghost ms = members@.map_values(|m: String| m@);
    let mut r: Vec<(String, u64)> = Vec::new();
    let mut i: usize = members.len();
    proof {
        assert(ms.take(i as int) =~= ms);
    }
    while i > 0 && r.len() < n
        invariant
            i <= members@.len(),
            r@.len() <= n,
            ms == members@.map_values(|m: String| m@),
            r@.map_values(|e: (String, u64)| pair_view(e)) + before_cursor(
                ms.take(i as int),
                cursor_member@,
                (n - r@.len()) as nat,
            ).map_values(|m: Seq<char>| (m, score)) == before_cursor(ms, cursor_member@, n as nat).map_values(
                |m: Seq<char>| (m, score),
            ),
        decreases i,
    {
        let ghost prefix = ms.take(i as int);
        proof {
            assert(prefix.drop_last() =~= ms.take(i - 1));
            assert(prefix.last() == members@[i - 1]@);
        }
        let member = &members[i - 1];
        if less_than(member.as_str(), cursor_member) {
            let ghost before = r@.map_values(|e: (String, u64)| pair_view(e));
            r.push((member.clone(), score));
            proof {
                assert(r@.map_values(|e: (String, u64)| pair_view(e)) =~= before.push(
                    (member@, score),
                ));
                let rest = before_cursor(ms.take(i - 1), cursor_member@, (n - r@.len()) as nat);
                assert(before_cursor(prefix, cursor_member@, (n - before.len()) as nat) == seq![
                    prefix.last(),
                ] + rest);
                assert((seq![prefix.last()] + rest).map_values(|m: Seq<char>| (m, score)) =~= seq![
                    (prefix.last(), score),
                ] + rest.map_values(|m: Seq<char>| (m, score)));
                assert(before.push((member@, score)) + rest.map_values(
                    |m: Seq<char>| (m, score),
                ) =~= before + (seq![(prefix.last(), score)] + rest.map_values(
                    |m: Seq<char>| (m, score),
                )));
            }
        }
        i = i - 1;
    }
    proof {
        let rest = before_cursor(ms.take(i as int), cursor_member@, (n - r@.len()) as nat);
        assert(rest =~= Seq::<Seq<char>>::empty());
        assert(r@.map_values(|e: (String, u64)| pair_view(e)) + rest.map_values(
            |m: Seq<char>| (m, score),
        ) =~= r@.map_values(|e: (String, u64)| pair_view(e)));
    }
    r
}

/// What the state filter means: without a filter every job passes; with
/// one, a job passes exactly when it is in the filter's state.
pub proof fn lemma_filter_keeps_its_state(filter: Option<JobState>, state: JobState)
    ensures
        passes(filter, state) <==> (filter is None || filter == Some(state)),
        filter matches Some(f) ==> (passes(filter, state) <==> state == f),
{
}

} // verus!
