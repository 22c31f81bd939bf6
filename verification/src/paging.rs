//! What a whole listing gives over an index that does not change while it
//! runs: the index is read highest score first, each step is fed what the
//! index answers, and the page holds the first matching jobs after the
//! cursor, with a next cursor from which the following page goes on.
use vstd::prelude::*;

use crate::ids::{uuid_parse, uuid_text};
use crate::job::{Job, JobId, JobState};
use crate::cursor::spec_encode_cursor;
use crate::listing::{
    clamp_limit, cursor_view, starts, finishes, ids_of_prefix, keeps, loads_states, page_jobs, passes, processes,
    JobListing, JobPage, ListAction, ListEvent, ListPhase,
};
use crate::text::text_less;

verus! {

/// Whether an index is in the order the listing reads it: a higher score
/// first, and among equal scores the greater member first.
pub open spec fn index_sorted(index: Seq<(Seq<char>, u64)>) -> bool {
    forall|i: int, j: int|
        0 <= i < j < index.len() ==> (#[trigger] index[j]).1 < (#[trigger] index[i]).1 || (
        index[j].1 == index[i].1 && text_less(index[j].0, index[i].0))
}

/// Whether each member of the index that reads as a job id is the text of
/// the id at its position.
pub open spec fn holds_ids(index: Seq<(Seq<char>, u64)>, ids: Seq<JobId>) -> bool {
    &&& index.len() == ids.len()
    &&& forall|i: int|
        0 <= i < index.len() && uuid_parse((#[trigger] index[i]).0) is Some ==> index[i].0
            == uuid_text(ids[i].0) && uuid_parse(index[i].0) == Some(ids[i].0)
}

/// Whether the members read as job ids from `lo` up to `hi`.
pub open spec fn ids_between(index: Seq<(Seq<char>, u64)>, lo: int, hi: int) -> bool {
    forall|i: int| lo <= i < hi ==> uuid_parse((#[trigger] index[i]).0) is Some
}

/// Whether `f` is where the first member from `start` on that is not a job
/// id stands, or the index's length when there is none.
pub open spec fn ids_until(index: Seq<(Seq<char>, u64)>, start: int, f: int) -> bool {
    &&& 0 <= start <= f <= index.len()
    &&& ids_between(index, start, f)
    &&& f < index.len() ==> uuid_parse(index[f].0) is None
}

/// The stored job of an id, if there is one.
pub open spec fn lookup(store: Map<JobId, Job>, id: JobId) -> Option<Job> {
    if store.dom().contains(id) {
        Some(store[id])
    } else {
        None
    }
}

/// The state of the stored job of an id, if there is one.
pub open spec fn lookup_state(store: Map<JobId, Job>, id: JobId) -> Option<JobState> {
    match lookup(store, id) {
        Some(j) => Some(j.state),
        None => None,
    }
}

/// Whether the `i`-th entry of the index is a job that passes the filter.
pub open spec fn is_match(
    ids: Seq<JobId>,
    store: Map<JobId, Job>,
    filter: Option<JobState>,
    i: int,
) -> bool {
    store.dom().contains(ids[i]) && passes(filter, store[ids[i]].state)
}

/// The matching entries among positions `lo` to `hi` of the index, in order.
pub open spec fn matching(
    index: Seq<(Seq<char>, u64)>,
    ids: Seq<JobId>,
    store: Map<JobId, Job>,
    filter: Option<JobState>,
    lo: int,
    hi: int,
) -> Seq<(Seq<char>, u64, JobId)>
    decreases hi - lo,
{
    if hi <= lo {
        Seq::empty()
    } else {
        let rest = matching(index, ids, store, filter, lo, hi - 1);
        if is_match(ids, store, filter, hi - 1) {
            rest.push((index[hi - 1].0, index[hi - 1].1, ids[hi - 1]))
        } else {
            rest
        }
    }
}

/// How many entries score at least `score`.
pub open spec fn count_at_least(index: Seq<(Seq<char>, u64)>, score: u64) -> int
    decreases index.len(),
{
    if index.len() == 0 {
        0
    } else {
        count_at_least(index.drop_last(), score) + if index.last().1 >= score {
            1int
        } else {
            0int
        }
    }
}

/// How many entries score above `score`.
pub open spec fn count_above(index: Seq<(Seq<char>, u64)>, score: u64) -> int
    decreases index.len(),
{
    if index.len() == 0 {
        0
    } else {
        count_above(index.drop_last(), score) + if index.last().1 > score {
            1int
        } else {
            0int
        }
    }
}

/// The members scored exactly `score`, lowest first, as the index gives them.
pub open spec fn same_score_members(index: Seq<(Seq<char>, u64)>, score: u64) -> Seq<Seq<char>> {
    let a = count_above(index, score);
    let b = count_at_least(index, score);
    Seq::new((b - a) as nat, |i: int| index[b - 1 - i].0)
}

pub open spec fn min_int(a: int, b: int) -> int {
    if a < b {
        a
    } else {
        b
    }
}

/// Whether `event` is what the index and the store answer to `action`.
pub open spec fn answers(
    index: Seq<(Seq<char>, u64)>,
    store: Map<JobId, Job>,
    action: ListAction,
    event: ListEvent,
) -> bool {
    match action {
        ListAction::FetchTop { count } => event matches ListEvent::Entries(b) && b@.map_values(
            |e: (String, u64)| crate::listing::pair_view(e),
        ) == index.take(min_int(count as int, index.len() as int)),
        ListAction::FetchSameScore { score } => event matches ListEvent::Members(ms)
            && ms@.map_values(|m: String| m@) == same_score_members(index, score),
        ListAction::FetchBelow { score, count } => event matches ListEvent::Entries(b)
            && b@.map_values(|e: (String, u64)| crate::listing::pair_view(e)) == index.subrange(
            count_at_least(index, score),
            min_int(count_at_least(index, score) + count, index.len() as int),
        ),
        ListAction::LoadStates { ids } => event matches ListEvent::States(st) && st@
            == ids@.map_values(|id: JobId| lookup_state(store, id)),
        ListAction::LoadJobs { ids } => event matches ListEvent::Jobs(js) && js@
            == ids@.map_values(|id: JobId| lookup(store, id)),
        _ => false,
    }
}

/// A text never comes before itself.
proof fn lemma_text_less_irreflexive(a: Seq<char>)
    ensures
        !text_less(a, a),
    decreases a.len(),
{
    if a.len() > 0 {
        lemma_text_less_irreflexive(a.drop_first());
    }
}

/// Of two texts, at most one comes before the other.
proof fn lemma_text_less_asymmetric(a: Seq<char>, b: Seq<char>)
    ensures
        text_less(a, b) ==> !text_less(b, a),
    decreases a.len(),
{
    if a.len() > 0 && b.len() > 0 && a[0] == b[0] {
        lemma_text_less_asymmetric(a.drop_first(), b.drop_first());
    }
}

proof fn lemma_sorted_drop_last(index: Seq<(Seq<char>, u64)>)
    requires
        index_sorted(index),
        index.len() > 0,
    ensures
        index_sorted(index.drop_last()),
{
    let d = index.drop_last();
    assert forall|i: int, j: int| 0 <= i < j < d.len() implies (#[trigger] d[j]).1 < (
    #[trigger] d[i]).1 || (d[j].1 == d[i].1 && text_less(d[j].0, d[i].0)) by {
        assert(d[i] == index[i] && d[j] == index[j]);
    }
}

/// In a sorted index the entries scoring at least `score` come first.
proof fn lemma_count_at_least(index: Seq<(Seq<char>, u64)>, score: u64)
    requires
        index_sorted(index),
    ensures
        0 <= count_at_least(index, score) <= index.len(),
        forall|i: int|
            0 <= i < index.len() ==> (i < count_at_least(index, score) <==> (#[trigger] index[i]).1
                >= score),
    decreases index.len(),
{
    if index.len() > 0 {
        let d = index.drop_last();
        let n = index.len() - 1;
        lemma_sorted_drop_last(index);
        lemma_count_at_least(d, score);
        if index[n].1 >= score && n > 0 {
            assert(index[n].1 < index[n - 1].1 || index[n].1 == index[n - 1].1);
            assert(d[n - 1] == index[n - 1]);
        }
        assert forall|i: int| 0 <= i < index.len() implies (i < count_at_least(index, score) <==> (
        #[trigger] index[i]).1 >= score) by {
            if i < n {
                assert(d[i] == index[i]);
                assert(index[n].1 < index[i].1 || index[n].1 == index[i].1);
            }
        }
    }
}

/// In a sorted index the entries scoring above `score` come first.
proof fn lemma_count_above(index: Seq<(Seq<char>, u64)>, score: u64)
    requires
        index_sorted(index),
    ensures
        0 <= count_above(index, score) <= index.len(),
        forall|i: int|
            0 <= i < index.len() ==> (i < count_above(index, score) <==> (#[trigger] index[i]).1
                > score),
    decreases index.len(),
{
    if index.len() > 0 {
        let d = index.drop_last();
        let n = index.len() - 1;
        lemma_sorted_drop_last(index);
        lemma_count_above(d, score);
        if index[n].1 > score && n > 0 {
            assert(index[n].1 < index[n - 1].1 || index[n].1 == index[n - 1].1);
            assert(d[n - 1] == index[n - 1]);
        }
        assert forall|i: int| 0 <= i < index.len() implies (i < count_above(index, score) <==> (
        #[trigger] index[i]).1 > score) by {
            if i < n {
                assert(d[i] == index[i]);
                assert(index[n].1 < index[i].1 || index[n].1 == index[i].1);
            }
        }
    }
}

/// The members at positions `a` to `b`, lowest first.
pub open spec fn seg(index: Seq<(Seq<char>, u64)>, a: int, b: int) -> Seq<Seq<char>> {
    Seq::new((b - a) as nat, |i: int| index[b - 1 - i].0)
}

/// The members at positions `x` to `y`, in index order.
pub open spec fn desc(index: Seq<(Seq<char>, u64)>, x: int, y: int) -> Seq<Seq<char>> {
    Seq::new((y - x) as nat, |i: int| index[x + i].0)
}

/// Whether positions `a` to `b` all hold `score`.
pub open spec fn same_score(index: Seq<(Seq<char>, u64)>, a: int, b: int, score: u64) -> bool {
    forall|k: int| a <= k < b ==> (#[trigger] index[k]).1 == score
}

/// Past the cursor's position, every member of its score is taken.
proof fn lemma_members_after_cursor(
    index: Seq<(Seq<char>, u64)>,
    c: int,
    a: int,
    b: int,
    n: nat,
)
    requires
        index_sorted(index),
        0 <= c < a <= b <= index.len(),
        same_score(index, a, b, index[c].1),
    ensures
        crate::listing::before_cursor(seg(index, a, b), index[c].0, n) == desc(
            index,
            a,
            min_int(b, a + n),
        ),
    decreases b - a,
{
    let ms = seg(index, a, b);
    if a == b || n == 0 {
        assert(desc(index, a, min_int(b, a + n)) =~= Seq::<Seq<char>>::empty());
    } else {
        assert(ms.last() == index[a].0);
        assert(ms.drop_last() =~= seg(index, a + 1, b));
        assert(index[a].1 == index[c].1);
        assert(text_less(index[a].0, index[c].0));
        lemma_members_after_cursor(index, c, a + 1, b, (n - 1) as nat);
        assert(seq![index[a].0] + desc(index, a + 1, min_int(b, a + 1 + (n - 1))) =~= desc(
            index,
            a,
            min_int(b, a + n),
        ));
    }
}

/// Among the members of the cursor's score, lowest first, those that come
/// after the cursor are the ones that follow it in the index.
proof fn lemma_members_from_cursor(
    index: Seq<(Seq<char>, u64)>,
    c: int,
    a: int,
    b: int,
    n: nat,
)
    requires
        index_sorted(index),
        0 <= a <= c < b <= index.len(),
        same_score(index, a, b, index[c].1),
    ensures
        crate::listing::before_cursor(seg(index, a, b), index[c].0, n) == desc(
            index,
            c + 1,
            min_int(b, c + 1 + n),
        ),
    decreases c - a,
{
    let ms = seg(index, a, b);
    if n == 0 {
        assert(desc(index, c + 1, min_int(b, c + 1 + n)) =~= Seq::<Seq<char>>::empty());
    } else {
        assert(ms.last() == index[a].0);
        assert(ms.drop_last() =~= seg(index, a + 1, b));
        if a < c {
            assert(index[a].1 == index[c].1);
            assert(text_less(index[c].0, index[a].0));
            lemma_text_less_asymmetric(index[c].0, index[a].0);
            lemma_members_from_cursor(index, c, a + 1, b, n);
        } else {
            lemma_text_less_irreflexive(index[c].0);
            lemma_members_after_cursor(index, c, a + 1, b, n);
        }
    }
}

/// What the listing picks from the members of the cursor's score: the
/// entries that follow the cursor in the index, up to the last of its
/// score, at most `n` of them.
proof fn lemma_picked_follow_cursor(index: Seq<(Seq<char>, u64)>, pos: int, n: nat)
    requires
        index_sorted(index),
        0 < pos <= index.len(),
    ensures
        ({
            let score = index[pos - 1].1;
            let b = count_at_least(index, score);
            &&& pos <= b <= index.len()
            &&& crate::listing::before_cursor(
                same_score_members(index, score),
                index[pos - 1].0,
                n,
            ).map_values(|m: Seq<char>| (m, score)) == index.subrange(pos, min_int(b, pos + n))
            &&& b < index.len() ==> index[b].1 < score
        }),
{
    let score = index[pos - 1].1;
    let a = count_above(index, score);
    let b = count_at_least(index, score);
    lemma_count_above(index, score);
    lemma_count_at_least(index, score);
    assert(index[pos - 1].1 >= score);
    assert(!(index[pos - 1].1 > score));
    assert(a <= pos - 1 < b);
    assert forall|k: int| a <= k < b implies (#[trigger] index[k]).1 == score by {
        assert(k < b);
        assert(!(k < a));
    }
    assert(same_score_members(index, score) =~= seg(index, a, b));
    lemma_members_from_cursor(index, pos - 1, a, b, n);
    let picked = desc(index, pos, min_int(b, pos + n));
    assert forall|k: int| pos <= k < b implies (#[trigger] index[k]).1 == score by {
        assert(k < b);
        assert(!(k < a));
    }
    assert(picked.map_values(|m: Seq<char>| (m, score)) =~= index.subrange(pos, min_int(b, pos + n)));
    if b < index.len() {
        assert(!(b < b));
    }
}

/// At most `cap` of the entries, from the first.
pub open spec fn take_cap(x: Seq<(Seq<char>, u64, JobId)>, cap: nat) -> Seq<(Seq<char>, u64, JobId)> {
    if x.len() > cap {
        x.take(cap as int)
    } else {
        x
    }
}

/// The matching entries of two neighbouring ranges are those of the two
/// ranges together.
proof fn lemma_matching_concat(
    index: Seq<(Seq<char>, u64)>,
    ids: Seq<JobId>,
    store: Map<JobId, Job>,
    filter: Option<JobState>,
    lo: int,
    mid: int,
    hi: int,
)
    requires
        lo <= mid <= hi,
    ensures
        matching(index, ids, store, filter, lo, mid) + matching(index, ids, store, filter, mid, hi)
            == matching(index, ids, store, filter, lo, hi),
    decreases hi - mid,
{
    if hi == mid {
        assert(matching(index, ids, store, filter, lo, mid) + matching(
            index,
            ids,
            store,
            filter,
            mid,
            hi,
        ) =~= matching(index, ids, store, filter, lo, hi));
    } else {
        lemma_matching_concat(index, ids, store, filter, lo, mid, hi - 1);
        let a = matching(index, ids, store, filter, lo, mid);
        let b = matching(index, ids, store, filter, mid, hi - 1);
        if is_match(ids, store, filter, hi - 1) {
            assert(a + b.push((index[hi - 1].0, index[hi - 1].1, ids[hi - 1])) =~= (a + b).push(
                (index[hi - 1].0, index[hi - 1].1, ids[hi - 1]),
            ));
        }
    }
}

/// Accepting a batch read from the index keeps, after the entries already
/// held, the batch's matching entries, until `cap` are held; reaching a
/// member that is not a job id before that fails.
proof fn lemma_accept_reads_matching(
    index: Seq<(Seq<char>, u64)>,
    ids: Seq<JobId>,
    store: Map<JobId, Job>,
    filter: Option<JobState>,
    base: Seq<(Seq<char>, u64, JobId)>,
    pos: int,
    f: int,
    m: int,
    cap: nat,
    k: nat,
)
    requires
        holds_ids(index, ids),
        0 <= pos <= f <= index.len(),
        ids_between(index, pos, f),
        0 <= k <= m,
        pos + m <= index.len(),
        base.len() <= cap,
    ensures
        ({
            let bids = ids.subrange(pos, min_int(pos + m, f));
            let got = crate::listing::accept_upto(
                base,
                index.subrange(pos, pos + m),
                bids,
                bids.map_values(|id: JobId| lookup_state(store, id)),
                filter,
                cap,
                k,
            );
            let upto_f = take_cap(base + matching(index, ids, store, filter, pos, f), cap);
            if pos + k <= f {
                got == Some(take_cap(base + matching(index, ids, store, filter, pos, pos + k), cap))
            } else if upto_f.len() >= cap {
                got == Some(upto_f)
            } else {
                got is None
            }
        }),
    decreases k,
{
    let batch = index.subrange(pos, pos + m);
    let bids = ids.subrange(pos, min_int(pos + m, f));
    let states = bids.map_values(|id: JobId| lookup_state(store, id));
    if k == 0 {
        assert(base + matching(index, ids, store, filter, pos, pos) =~= base);
    } else {
        lemma_accept_reads_matching(index, ids, store, filter, base, pos, f, m, cap, (k - 1) as nat);
        let prev = base + matching(index, ids, store, filter, pos, pos + k - 1);
        let next = base + matching(index, ids, store, filter, pos, pos + k);
        let j = pos + k - 1;
        if pos + k <= f {
            let acc = take_cap(prev, cap);
            if acc.len() >= cap {
                if is_match(ids, store, filter, j) {
                    assert(next =~= prev.push((index[j].0, index[j].1, ids[j])));
                    assert(next.take(cap as int) =~= prev.take(cap as int));
                }
            } else {
                assert(bids[k - 1] == ids[j]);
                assert(batch[k - 1] == index[j]);
                assert(states[k - 1] == lookup_state(store, ids[j]));
                assert(uuid_parse(index[j].0) is Some);
                assert(index[j].0 == uuid_text(ids[j].0));
                if is_match(ids, store, filter, j) {
                    assert(next =~= prev.push((index[j].0, index[j].1, ids[j])));
                } else {
                    assert(next =~= prev);
                }
            }
        } else if pos + k - 1 == f {
            assert(bids.len() == k - 1);
        }
    }
}

/// Every matching entry is a stored job that passes the filter, held
/// under its id's text.
proof fn lemma_matching_entries(
    index: Seq<(Seq<char>, u64)>,
    ids: Seq<JobId>,
    store: Map<JobId, Job>,
    filter: Option<JobState>,
    lo: int,
    hi: int,
)
    requires
        holds_ids(index, ids),
        0 <= lo,
        hi <= index.len(),
        ids_between(index, lo, hi),
    ensures
        forall|t: int|
            0 <= t < matching(index, ids, store, filter, lo, hi).len() ==> {
                let e = #[trigger] matching(index, ids, store, filter, lo, hi)[t];
                &&& store.dom().contains(e.2)
                &&& passes(filter, store[e.2].state)
                &&& e.0 == uuid_text(e.2.0)
            },
    decreases hi - lo,
{
    if hi > lo {
        lemma_matching_entries(index, ids, store, filter, lo, hi - 1);
        let rest = matching(index, ids, store, filter, lo, hi - 1);
        let all = matching(index, ids, store, filter, lo, hi);
        assert forall|t: int| 0 <= t < all.len() implies {
            let e = #[trigger] all[t];
            &&& store.dom().contains(e.2)
            &&& passes(filter, store[e.2].state)
            &&& e.0 == uuid_text(e.2.0)
        } by {
            if t < rest.len() {
                assert(all[t] == rest[t]);
            }
        }
    }
}

/// The jobs of a page read back for entries that all match are those jobs.
proof fn lemma_page_of_matching(
    kept: Seq<(Seq<char>, u64, JobId)>,
    store: Map<JobId, Job>,
    filter: Option<JobState>,
)
    requires
        forall|t: int|
            0 <= t < kept.len() ==> store.dom().contains((#[trigger] kept[t]).2) && passes(
                filter,
                store[kept[t].2].state,
            ),
    ensures
        page_jobs(kept.map_values(|e: (Seq<char>, u64, JobId)| lookup(store, e.2)), filter)
            == kept.map_values(|e: (Seq<char>, u64, JobId)| store[e.2]),
    decreases kept.len(),
{
    let loaded = kept.map_values(|e: (Seq<char>, u64, JobId)| lookup(store, e.2));
    if kept.len() > 0 {
        let d = kept.drop_last();
        assert forall|t: int| 0 <= t < d.len() implies store.dom().contains((#[trigger] d[t]).2)
            && passes(filter, store[d[t].2].state) by {
            assert(d[t] == kept[t]);
        }
        lemma_page_of_matching(d, store, filter);
        assert(loaded.drop_last() =~= d.map_values(|e: (Seq<char>, u64, JobId)| lookup(store, e.2)));
        assert(kept.map_values(|e: (Seq<char>, u64, JobId)| store[e.2]) =~= d.map_values(
            |e: (Seq<char>, u64, JobId)| store[e.2],
        ).push(store[kept.last().2]));
        assert(kept.last() == kept[kept.len() - 1]);
    } else {
        assert(kept.map_values(|e: (Seq<char>, u64, JobId)| store[e.2]) =~= Seq::<Job>::empty());
    }
}

/// The ids read from a batch of the index are the index's ids there.
proof fn lemma_batch_ids(
    index: Seq<(Seq<char>, u64)>,
    ids: Seq<JobId>,
    pos: int,
    f: int,
    m: int,
    bids: Seq<JobId>,
)
    requires
        holds_ids(index, ids),
        0 <= pos <= f <= index.len(),
        ids_between(index, pos, f),
        f < index.len() ==> uuid_parse(index[f].0) is None,
        0 <= m,
        pos + m <= index.len(),
        ids_of_prefix(index.subrange(pos, pos + m), bids),
    ensures
        bids == ids.subrange(pos, min_int(pos + m, f)),
{
    let batch = index.subrange(pos, pos + m);
    assert forall|i: int| 0 <= i < bids.len() implies bids[i] == ids[pos + i] && uuid_parse(
        index[pos + i].0,
    ) is Some by {
        assert(batch[i] == index[pos + i]);
        assert(uuid_parse(batch[i].0) == Some(bids[i].0));
    }
    if bids.len() < batch.len() {
        assert(batch[bids.len() as int] == index[pos + bids.len()]);
        if pos + bids.len() < f {
            assert(uuid_parse(index[pos + bids.len()].0) is Some);
        }
        if f < pos + bids.len() {
            let i = f - pos;
            assert(batch[i] == index[f]);
            assert(uuid_parse(batch[i].0) == Some(bids[i].0));
        }
    } else if f < pos + m {
        let i = f - pos;
        assert(batch[i] == index[f]);
        assert(uuid_parse(batch[i].0) == Some(bids[i].0));
    }
    assert(bids =~= ids.subrange(pos, min_int(pos + m, f)));
}

/// An encoded cursor decodes to its score and member.
proof fn lemma_decode_encoded(score: u64, member: Seq<char>)
    requires
        member.len() > 0,
    ensures
        crate::listing::spec_decode(spec_encode_cursor(score, member)) == Ok::<
            (u64, Seq<char>),
            crate::cursor::CursorError,
        >((score, member)),
{
    let text = spec_encode_cursor(score, member);
    let n = crate::text::decimal(score as nat).len() as int;
    crate::cursor::lemma_cursor_round_trip(score, member);
    assert(!crate::text::colon_free(text)) by {
        assert(text[n] == ':');
    }
    let i = choose|i: int| crate::text::first_colon_at(text, i);
    crate::text::lemma_first_colon_unique(text, i, n);
}

/// At most `limit` of the matching entries, from the first.
pub open spec fn kept_of(all: Seq<(Seq<char>, u64, JobId)>, limit: usize) -> Seq<
    (Seq<char>, u64, JobId),
> {
    if all.len() > limit {
        all.take(limit as int)
    } else {
        all
    }
}

/// Whether a page is what a listing of at most `limit` jobs in the filter's
/// state, going on from position `start` of the index, gives when `f` is
/// where the first member that is no job id stands: the first matching jobs
/// from `start`, whether more match before `f`, and the cursor of the last
/// one shown when more do.
pub open spec fn lists(
    page: JobPage,
    index: Seq<(Seq<char>, u64)>,
    ids: Seq<JobId>,
    store: Map<JobId, Job>,
    filter: Option<JobState>,
    limit: usize,
    start: int,
    f: int,
) -> bool {
    let all = matching(index, ids, store, filter, start, f);
    let kept = kept_of(all, limit);
    &&& f == index.len() || all.len() > limit
    &&& page.jobs@ == kept.map_values(|e: (Seq<char>, u64, JobId)| store[e.2])
    &&& page.has_more == (all.len() > limit)
    &&& page.has_more ==> (page.next_cursor matches Some(c) && c@ == spec_encode_cursor(
        kept.last().1,
        kept.last().0,
    ))
    &&& !page.has_more ==> page.next_cursor is None
}

/// Whether a listing from `start` fails on the member at `f` that is no job
/// id: it reaches that member before more than `limit` jobs have matched.
pub open spec fn fails_at(
    index: Seq<(Seq<char>, u64)>,
    ids: Seq<JobId>,
    store: Map<JobId, Job>,
    filter: Option<JobState>,
    limit: usize,
    start: int,
    f: int,
) -> bool {
    f < index.len() && matching(index, ids, store, filter, start, f).len() <= limit
}

/// Where a listing that goes on from position `start` stands, at position
/// `pos` of the index, with the action it waits on; `f` is where the first
/// member from `start` on that is no job id stands.
pub open spec fn tracks(
    p: (JobListing, ListAction),
    index: Seq<(Seq<char>, u64)>,
    ids: Seq<JobId>,
    store: Map<JobId, Job>,
    start: int,
    f: int,
    pos: int,
) -> bool {
    let l = p.0;
    let n = index.len() as int;
    let found = matching(index, ids, store, l.filter, start, pos);
    let all = matching(index, ids, store, l.filter, start, f);
    &&& l.wf()
    &&& 0 <= start <= pos <= f <= n
    &&& l.phase != ListPhase::Done
    &&& l.phase != ListPhase::AwaitJobs ==> l.entries_view() == found
    &&& l.phase == ListPhase::AwaitTop ==> pos == 0 && p.1 == (ListAction::FetchTop {
        count: l.remaining,
    })
    &&& l.phase == ListPhase::AwaitSameScore ==> pos > 0 && cursor_view(l.cursor) == Some(
        (index[pos - 1].1, index[pos - 1].0),
    ) && p.1 == (ListAction::FetchSameScore { score: index[pos - 1].1 })
    &&& l.phase == ListPhase::AwaitBelow ==> pos > 0 && {
        let b = count_at_least(index, index[pos - 1].1);
        &&& l.batch_view() == index.subrange(pos, b)
        &&& b - pos < l.remaining
        &&& p.1 == (ListAction::FetchBelow {
            score: index[pos - 1].1,
            count: (l.remaining - (b - pos)) as usize,
        })
    }
    &&& l.phase == ListPhase::AwaitStates ==> {
        let end = min_int(n, pos + l.remaining);
        &&& l.batch_view() == index.subrange(pos, end)
        &&& l.batch_ids@ == ids.subrange(pos, min_int(end, f))
        &&& p.1 matches ListAction::LoadStates { ids: v } && v@ == l.batch_ids@
    }
    &&& l.phase == ListPhase::AwaitJobs ==> {
        let kept = kept_of(all, l.limit);
        &&& f == n || all.len() > l.limit
        &&& l.entries_view() == kept
        &&& l.has_more == (all.len() > l.limit)
        &&& p.1 matches ListAction::LoadJobs { ids: v } && v@ == kept.map_values(
            |e: (Seq<char>, u64, JobId)| e.2,
        )
    }
}

/// After a batch of the index is read from position `pos` on, the listing
/// either asks for the batch's job states or, at the index's end, has its
/// page's entries.
proof fn lemma_batch_read(
    l: JobListing,
    r: (JobListing, ListAction),
    index: Seq<(Seq<char>, u64)>,
    ids: Seq<JobId>,
    store: Map<JobId, Job>,
    start: int,
    f: int,
    pos: int,
)
    requires
        holds_ids(index, ids),
        ids_until(index, start, f),
        l.wf(),
        0 <= start <= pos <= f,
        l.entries_view() == matching(index, ids, store, l.filter, start, pos),
        l.entries@.len() < l.limit + 1,
        l.remaining == l.limit + 1 - l.entries@.len(),
        l.remaining > 0,
        processes(
            index.subrange(pos, min_int(index.len() as int, pos + l.remaining)),
            l.entries_view(),
            l.limit,
            r,
        ),
        r.0.wf(),
        keeps(l, r.0),
    ensures
        tracks(r, index, ids, store, start, f, pos),
{
    let n = index.len() as int;
    let end = min_int(n, pos + l.remaining);
    let bv = index.subrange(pos, end);
    assert(l.entries_view().len() == l.entries@.len());
    if bv.len() == 0 {
        assert(pos == n);
    } else {
        assert(r.0.entries_view().len() == r.0.entries@.len());
        lemma_batch_ids(index, ids, pos, f, end - pos, r.0.batch_ids@);
    }
}

/// One step of a listing fed what an unchanged index answers keeps it on
/// track, moving its position forward through the index; or ends it, with
/// the page of the first matching jobs from where it started, or failing
/// on a member that is no job id, reached before the page is full.
pub proof fn lemma_listing_follows_index(
    p: (JobListing, ListAction),
    event: ListEvent,
    r: (JobListing, ListAction),
    index: Seq<(Seq<char>, u64)>,
    ids: Seq<JobId>,
    store: Map<JobId, Job>,
    start: int,
    f: int,
    pos: int,
) -> (next: int)
    requires
        index_sorted(index),
        holds_ids(index, ids),
        ids_until(index, start, f),
        tracks(p, index, ids, store, start, f, pos),
        answers(index, store, p.1, event),
        p.0.steps(event, r),
        r.0.wf(),
        keeps(p.0, r.0),
    ensures
        r.1 is Page ==> (r.1 matches ListAction::Page(page) && lists(
            page,
            index,
            ids,
            store,
            p.0.filter,
            p.0.limit,
            start,
            f,
        )),
        r.1 is Fail ==> r.1 == ListAction::Fail(crate::listing::ListError::InvalidJobId)
            && fails_at(index, ids, store, p.0.filter, p.0.limit, start, f),
        !(r.1 is Page) && !(r.1 is Fail) ==> tracks(r, index, ids, store, start, f, next) && pos
            <= next,
{
    let l = p.0;
    let n = index.len() as int;
    let cap = l.limit + 1;
    assert(l.entries_view().len() == l.entries@.len());
    match l.phase {
        ListPhase::AwaitTop => {
            let b = event->Entries_0;
            assert(b@.map_values(|e: (String, u64)| crate::listing::pair_view(e)) =~= index.subrange(
                pos,
                min_int(n, pos + l.remaining),
            ));
            lemma_batch_read(l, r, index, ids, store, start, f, pos);
            pos
        },
        ListPhase::AwaitSameScore => {
            let score = index[pos - 1].1;
            let b = count_at_least(index, score);
            lemma_picked_follow_cursor(index, pos, l.remaining as nat);
            if b < pos + l.remaining {
                assert(r.0.entries_view().len() == r.0.entries@.len());
                pos
            } else {
                assert(min_int(b, pos + l.remaining) == min_int(n, pos + l.remaining));
                lemma_batch_read(l, r, index, ids, store, start, f, pos);
                pos
            }
        },
        ListPhase::AwaitBelow => {
            let score = index[pos - 1].1;
            let b = count_at_least(index, score);
            lemma_picked_follow_cursor(index, pos, 0);
            assert(index.subrange(pos, b) + index.subrange(
                b,
                min_int(b + (l.remaining - (b - pos)), n),
            ) =~= index.subrange(pos, min_int(n, pos + l.remaining)));
            lemma_batch_read(l, r, index, ids, store, start, f, pos);
            pos
        },
        ListPhase::AwaitStates => {
            let end = min_int(n, pos + l.remaining);
            let m = end - pos;
            let found = matching(index, ids, store, l.filter, start, pos);
            lemma_accept_reads_matching(
                index,
                ids,
                store,
                l.filter,
                found,
                pos,
                f,
                m,
                cap as nat,
                m as nat,
            );
            let all = matching(index, ids, store, l.filter, start, f);
            let st = event->States_0;
            let bids = ids.subrange(pos, min_int(end, f));
            assert(st@ =~= bids.map_values(|id: JobId| lookup_state(store, id)));
            assert(index.subrange(pos, end).len() == l.batch@.len());
            if end <= f {
                lemma_matching_concat(index, ids, store, l.filter, start, pos, end);
                lemma_matching_concat(index, ids, store, l.filter, start, end, f);
                let upto = matching(index, ids, store, l.filter, start, end);
                let acc = take_cap(upto, cap as nat);
                if m < l.remaining || acc.len() >= cap {
                    let kept_r = if acc.len() > l.limit {
                        acc.take(l.limit as int)
                    } else {
                        acc
                    };
                    if m < l.remaining {
                        assert(end == n);
                        assert(upto == all);
                        if all.len() > cap {
                            assert(kept_r =~= all.take(l.limit as int));
                        }
                        assert(kept_r =~= kept_of(all, l.limit));
                    } else {
                        assert(upto.len() >= cap);
                        assert(acc =~= upto.take(cap as int));
                        assert(all.take(cap as int) =~= upto.take(cap as int));
                        assert(kept_r =~= all.take(l.limit as int));
                        assert(kept_r =~= kept_of(all, l.limit));
                    }
                    assert(r.0.entries_view().len() == r.0.entries@.len());
                    f
                } else {
                    assert(acc == upto);
                    assert(r.0.entries_view().len() == r.0.entries@.len());
                    end
                }
            } else {
                lemma_matching_concat(index, ids, store, l.filter, start, pos, f);
                let acc = take_cap(all, cap as nat);
                if acc.len() >= cap {
                    let kept_r = acc.take(l.limit as int);
                    assert(kept_r =~= all.take(l.limit as int));
                    assert(kept_r =~= kept_of(all, l.limit));
                    assert(r.0.entries_view().len() == r.0.entries@.len());
                }
                f
            }
        },
        ListPhase::AwaitJobs => {
            let all = matching(index, ids, store, l.filter, start, f);
            let kept = kept_of(all, l.limit);
            lemma_matching_entries(index, ids, store, l.filter, start, f);
            assert forall|t: int| 0 <= t < kept.len() implies store.dom().contains(
                (#[trigger] kept[t]).2,
            ) && passes(l.filter, store[kept[t].2].state) && kept[t].0 == uuid_text(kept[t].2.0) by {
                assert(kept[t] == all[t]);
            }
            let js = event->Jobs_0;
            assert(js@ =~= kept.map_values(|e: (Seq<char>, u64, JobId)| lookup(store, e.2)));
            lemma_page_of_matching(kept, store, l.filter);
            if l.has_more {
                assert(kept.len() > 0);
                assert(kept.last() == kept[kept.len() - 1]);
            }
            pos
        },
        ListPhase::Done => pos,
    }
}

/// A listing starts on track: without a cursor at the top of the index,
/// and with the cursor of an entry that is a job id right after that entry.
pub proof fn lemma_listing_starts(
    limit: usize,
    cursor: Option<Seq<char>>,
    filter: Option<JobState>,
    r: Result<(JobListing, ListAction), crate::listing::ListError>,
    index: Seq<(Seq<char>, u64)>,
    ids: Seq<JobId>,
    store: Map<JobId, Job>,
    start: int,
    f: int,
)
    requires
        holds_ids(index, ids),
        ids_until(index, start, f),
        starts(limit, cursor, filter, r),
        cursor is None ==> start == 0,
        cursor matches Some(c) ==> 0 < start && uuid_parse(index[start - 1].0) is Some && c
            == spec_encode_cursor(index[start - 1].1, index[start - 1].0),
    ensures
        r matches Ok(p) && tracks(p, index, ids, store, start, f, start) && p.0.limit
            == clamp_limit(limit) && p.0.filter == filter,
{
    if cursor is Some {
        assert(index[start - 1].0 == uuid_text(ids[start - 1].0));
        assert(index[start - 1].0.len() == 36);
        lemma_decode_encoded(index[start - 1].1, index[start - 1].0);
    }
    let p = r->Ok_0;
    assert(p.0.entries_view() =~= matching(index, ids, store, filter, start, start));
}

/// A whole listing over an unchanged index: started on track at position
/// `start` and fed, at each step, what the index and the store answer, it
/// ends with the page of the first matching jobs from `start` on, or, when
/// it reaches a member that is no job id before the page is full, fails.
pub proof fn lemma_listing_run(
    trace: Seq<(JobListing, ListAction)>,
    events: Seq<ListEvent>,
    index: Seq<(Seq<char>, u64)>,
    ids: Seq<JobId>,
    store: Map<JobId, Job>,
    start: int,
    f: int,
    pos: int,
)
    requires
        index_sorted(index),
        holds_ids(index, ids),
        ids_until(index, start, f),
        trace.len() == events.len() + 1,
        tracks(trace[0], index, ids, store, start, f, pos),
        forall|k: int|
            0 <= k < events.len() ==> answers(index, store, trace[k].1, #[trigger] events[k])
                && trace[k].0.steps(events[k], trace[k + 1]) && trace[k + 1].0.wf() && keeps(
                trace[k].0,
                trace[k + 1].0,
            ),
        trace.last().1 is Page || trace.last().1 is Fail,
    ensures
        trace.last().1 is Page ==> (trace.last().1 matches ListAction::Page(page) && lists(
            page,
            index,
            ids,
            store,
            trace[0].0.filter,
            trace[0].0.limit,
            start,
            f,
        )),
        trace.last().1 is Fail ==> fails_at(
            index,
            ids,
            store,
            trace[0].0.filter,
            trace[0].0.limit,
            start,
            f,
        ),
    decreases events.len(),
{
    if events.len() > 0 {
        assert(answers(index, store, trace[0].1, events[0]));
        let next = lemma_listing_follows_index(
            trace[0],
            events[0],
            trace[1],
            index,
            ids,
            store,
            start,
            f,
            pos,
        );
        if trace[1].1 is Page || trace[1].1 is Fail {
            if events.len() > 1 {
                assert(answers(index, store, trace[1].1, events[1]));
            }
        } else {
            let t = trace.drop_first();
            let e = events.drop_first();
            assert forall|k: int| 0 <= k < e.len() implies answers(index, store, t[k].1, #[trigger] e[k])
                && t[k].0.steps(e[k], t[k + 1]) && t[k + 1].0.wf() && keeps(t[k].0, t[k + 1].0) by {
                assert(e[k] == events[k + 1]);
                assert(t[k] == trace[k + 1] && t[k + 1] == trace[k + 2]);
            }
            lemma_listing_run(t, e, index, ids, store, start, f, next);
        }
    }
}

/// Where the matching entries reach `target` of them, `target` at least one.
proof fn lemma_find_cut(
    index: Seq<(Seq<char>, u64)>,
    ids: Seq<JobId>,
    store: Map<JobId, Job>,
    filter: Option<JobState>,
    lo: int,
    hi: int,
    target: nat,
) -> (q: int)
    requires
        0 < target <= matching(index, ids, store, filter, lo, hi).len(),
    ensures
        lo < q <= hi,
        matching(index, ids, store, filter, lo, q).len() == target,
        is_match(ids, store, filter, q - 1),
        matching(index, ids, store, filter, lo, q).last() == (index[q - 1].0, index[q - 1].1, ids[
            q - 1
        ]),
    decreases hi - lo,
{
    if matching(index, ids, store, filter, lo, hi - 1).len() >= target {
        lemma_find_cut(index, ids, store, filter, lo, hi - 1, target)
    } else {
        hi
    }
}

/// Pages go on where the last one stopped: when more jobs match than a page
/// shows, its last job stands at some position `q` of the index, the page
/// holds exactly the matching jobs before `q`, its next cursor is the cursor
/// of the entry at `q - 1`, a job id, and the matching jobs from `start` are
/// the page's followed by those from `q`. A page started from that cursor
/// goes on from `q` (`lemma_listing_starts`, with the same `f`), so no job is
/// shown twice and none is skipped.
pub proof fn lemma_pages_continue(
    index: Seq<(Seq<char>, u64)>,
    ids: Seq<JobId>,
    store: Map<JobId, Job>,
    filter: Option<JobState>,
    limit: usize,
    start: int,
    f: int,
) -> (q: int)
    requires
        holds_ids(index, ids),
        ids_until(index, start, f),
        limit >= 1,
        matching(index, ids, store, filter, start, f).len() > limit,
    ensures
        start < q <= f,
        ids_until(index, q, f),
        uuid_parse(index[q - 1].0) is Some,
        ({
            let all = matching(index, ids, store, filter, start, f);
            let kept = kept_of(all, limit);
            &&& matching(index, ids, store, filter, start, q) == kept
            &&& kept.last().0 == index[q - 1].0
            &&& kept.last().1 == index[q - 1].1
            &&& all == kept + matching(index, ids, store, filter, q, f)
        }),
{
    let q = lemma_find_cut(index, ids, store, filter, start, f, limit as nat);
    lemma_matching_concat(index, ids, store, filter, start, q, f);
    let all = matching(index, ids, store, filter, start, f);
    let first = matching(index, ids, store, filter, start, q);
    assert(all.take(limit as int) =~= first);
    assert(uuid_parse(index[q - 1].0) is Some);
    q
}

} // verus!
