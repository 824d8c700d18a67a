//! Decisions of the bridge service's loops: REST live ingest, the publish
//! workers, and how their outcomes feed the health state.
//!
//! The database, the HTTP polls, the timers and task spawning are the
//! caller's; each function here decides on what those returned.

use vstd::prelude::*;
use crate::chars::str_equal;
use crate::event::NostrEvent;
use crate::funnelcake::VideoEventsPage;
use crate::health::{retry_delay_secs, RuntimeHealthState};
use crate::order::{key_lt, lemma_str_lt_asymmetric, lemma_str_lt_irreflexive, lemma_str_lt_total, lemma_str_lt_transitive, str_less, str_lt};
use crate::pipeline::AccountLink;

verus! {

broadcast use vstd::seq_lib::group_seq_properties;

/// Outcome of one publish-worker iteration.
#[derive(Debug, Clone, PartialEq, Eq)]
pub enum WorkerRunResult {
    Idle,
    Completed { nostr_event_id: String },
    Failed { nostr_event_id: String, error: String },
}

/// The worker result of a claimed job, from what executing it gave.
pub fn worker_result(nostr_event_id: String, executed: Result<(), String>) -> (r: WorkerRunResult)
    ensures
        executed is Ok ==> r == (WorkerRunResult::Completed { nostr_event_id }),
        executed matches Err(e) ==> r == (WorkerRunResult::Failed { nostr_event_id, error: e }),
{
    match executed {
        Ok(()) => WorkerRunResult::Completed { nostr_event_id },
        Err(error) => WorkerRunResult::Failed { nostr_event_id, error },
    }
}

/// How a worker iteration feeds the health state: a failed job is a
/// processing failure, a failed iteration a runtime failure followed by the
/// retry delay (seconds, returned); other outcomes change nothing.
pub fn apply_worker_outcome(health: &mut RuntimeHealthState, outcome: Result<WorkerRunResult, String>) -> (delay: Option<u64>)
    requires
        old(health).wf(),
    ensures
        final(health).wf(),
        match outcome {
            Ok(WorkerRunResult::Failed { error, .. }) => delay is None
                && final(health).consecutive_readiness_failures == old(health).consecutive_readiness_failures
                && final(health).degraded == old(health).degraded
                && (final(health).last_error matches Some(e) && e@ == error@),
            Ok(_) => delay is None && *final(health) == *old(health),
            Err(e) => (final(health).last_error matches Some(x) && x@ == e@)
                && final(health).consecutive_readiness_failures == (if old(health).consecutive_readiness_failures == u32::MAX {
                    u32::MAX
                } else {
                    (old(health).consecutive_readiness_failures + 1) as u32
                })
                && delay == Some(retry_delay_secs(final(health).consecutive_readiness_failures) as u64),
        },
{
    match outcome {
        Ok(WorkerRunResult::Failed { error, .. }) => {
            health.record_processing_failure(error);
            None
        },
        Ok(_) => None,
        Err(e) => {
            health.record_runtime_failure(e);
            Some(health.next_retry_delay())
        },
    }
}

/// How a REST ingest poll feeds the health state: success clears it, a
/// failure counts against readiness.
pub fn apply_ingest_outcome(health: &mut RuntimeHealthState, outcome: Result<RestIngestOutcome, String>)
    requires
        old(health).wf(),
    ensures
        final(health).wf(),
        outcome is Ok ==> final(health).consecutive_readiness_failures == 0 && !final(health).degraded
            && final(health).last_error is None,
        outcome matches Err(e) ==> (final(health).last_error matches Some(x) && x@ == e@)
            && final(health).consecutive_readiness_failures == (if old(health).consecutive_readiness_failures == u32::MAX {
                u32::MAX
            } else {
                (old(health).consecutive_readiness_failures + 1) as u32
            }),
{
    match outcome {
        Ok(_) => health.record_success(),
        Err(e) => health.record_runtime_failure(e),
    }
}

/// Which queue a publish worker drains.
#[derive(Debug, Clone, Copy, PartialEq, Eq, Structural)]
pub enum PublishJobSource {
    Live,
    Backfill,
}

impl PublishJobSource {
    pub fn as_str(&self) -> (s: &'static str)
        ensures
            s@ == match self {
                PublishJobSource::Live => "live"@,
                PublishJobSource::Backfill => "backfill"@,
            },
    {
        match self {
            PublishJobSource::Live => "live",
            PublishJobSource::Backfill => "backfill",
        }
    }
}

/// Milliseconds between iterations of a publish worker.
pub fn worker_interval_millis(lane: PublishJobSource) -> (ms: u64)
    ensures
        ms == match lane {
            PublishJobSource::Live => 250u64,
            PublishJobSource::Backfill => 1000u64,
        },
{
    match lane {
        PublishJobSource::Live => 250,
        PublishJobSource::Backfill => 1000,
    }
}

/// Seconds between REST polls: the configured interval, at least one.
pub fn poll_interval_secs(configured: u64) -> (secs: u64)
    ensures
        secs == if configured < 1 {
            1
        } else {
            configured
        },
{
    if configured < 1 {
        1
    } else {
        configured
    }
}

/// An account-link lifecycle row as the account store reads it.
pub struct AccountLinkLifecycleRow {
    pub nostr_pubkey: String,
    pub did: Option<String>,
    pub crosspost_enabled: bool,
    pub provisioning_state: String,
    pub disabled_at: Option<i64>,
}

/// The bridge's account link of a lifecycle row: only a ready, enabled,
/// cross-posting account with a DID is linked, and then it is opted in.
pub fn account_link_from_lifecycle_row(row: &AccountLinkLifecycleRow) -> (res: Option<AccountLink>)
    ensures
        res is Some <==> (row.did is Some && row.provisioning_state@ == "ready"@ && row.disabled_at is None
            && row.crosspost_enabled),
        res matches Some(l) ==> l.nostr_pubkey@ == row.nostr_pubkey@ && (row.did matches Some(d) && l.did@
            == d@) && l.opted_in,
{
    let did = match &row.did {
        Some(d) => d.clone(),
        None => return None,
    };
    let is_ready = str_equal(row.provisioning_state.as_str(), "ready");
    if !is_ready || row.disabled_at.is_some() || !row.crosspost_enabled {
        return None;
    }
    Some(AccountLink { nostr_pubkey: row.nostr_pubkey.clone(), did, opted_in: row.crosspost_enabled && is_ready })
}

// ---------------------------------------------------------------------------
// REST live ingest
// ---------------------------------------------------------------------------

/// Outcome of a single REST ingest poll.
#[derive(Debug, Clone, Copy, PartialEq, Eq, Structural)]
pub struct RestIngestOutcome {
    /// Number of new events handed to the publish pipeline this poll.
    pub processed: usize,
    /// True if this poll only seeded the cold-start cursor (no history replay).
    pub cold_start_seeded: bool,
}

/// Pages fetched per kind in one poll: the configured number, at least one.
pub fn page_budget(max_pages: usize) -> (n: usize)
    ensures
        n == if max_pages < 1 {
            1
        } else {
            max_pages
        },
{
    if max_pages < 1 {
        1
    } else {
        max_pages
    }
}

/// The newest `(created_at, id)` after looking at `events` in order: an
/// event replaces the newest seen only when strictly newer.
pub open spec fn newest_after(newest: Option<(i64, Seq<char>)>, events: Seq<NostrEvent>) -> Option<(i64, Seq<char>)>
    decreases events.len(),
{
    if events.len() == 0 {
        newest
    } else {
        let n = newest_after(newest, events.drop_last());
        let e = events.last();
        match n {
            Some((t, _)) => if e.created_at > t {
                Some((e.created_at, e.id@))
            } else {
                n
            },
            None => Some((e.created_at, e.id@)),
        }
    }
}

/// Whether a page reaches back to the stored cursor.
pub open spec fn reaches_cursor(events: Seq<NostrEvent>, cursor: Option<i64>) -> bool {
    cursor matches Some(c) && exists|i: int| 0 <= i < events.len() && (#[trigger] events[i]).created_at <= c
}

/// The newest event seen so far, as `(created_at, id)`.
pub open spec fn newest_view(n: Option<(i64, String)>) -> Option<(i64, Seq<char>)> {
    match n {
        Some((t, id)) => Some((t, id@)),
        None => None,
    }
}

/// Scan a fetched page: update the newest event seen and tell whether the
/// page reaches the stored cursor.
pub fn scan_page(newest: &mut Option<(i64, String)>, events: &Vec<NostrEvent>, cursor: Option<i64>) -> (reached: bool)
    ensures
        newest_view(*final(newest)) == newest_after(newest_view(*old(newest)), events@),
        reached == reaches_cursor(events@, cursor),
{
    let mut reached = false;
    let mut i: usize = 0;
    let ghost start = newest_view(*newest);
    while i < events.len()
        invariant
            i <= events@.len(),
            newest_view(*newest) == newest_after(start, events@.take(i as int)),
            reached == (cursor matches Some(c) && exists|j: int|
                0 <= j < i && (#[trigger] events@[j]).created_at <= c),
        decreases events.len() - i,
    {
        let ev = &events[i];
        assert(events@.take(i + 1).drop_last() =~= events@.take(i as int));
        let replace = match newest {
            Some((t, _)) => ev.created_at > *t,
            None => true,
        };
        if replace {
            *newest = Some((ev.created_at, ev.id.clone()));
        }
        if let Some(c) = cursor {
            if ev.created_at <= c {
                reached = true;
            }
        }
        i += 1;
    }
    assert(events@.take(events@.len() as int) =~= events@);
    reached
}

/// Where the next page of a kind starts, or `None` to stop: a cold start
/// needs one page, and paging stops at the cursor or the last page.
pub fn next_page_before(cold_start: bool, reached_cursor: bool, has_more: bool, next_cursor: Option<i64>) -> (before: Option<i64>)
    ensures
        before == if cold_start || reached_cursor || !has_more {
            None
        } else {
            next_cursor
        },
{
    if cold_start || reached_cursor || !has_more || next_cursor.is_none() {
        None
    } else {
        next_cursor
    }
}

/// Take in one fetched page of a kind: an empty page ends the kind's paging
/// and changes nothing; otherwise its events update the newest seen, and the
/// result is the `before` cursor of the next page, if another is fetched.
pub fn take_page(
    newest: &mut Option<(i64, String)>,
    page: &VideoEventsPage,
    cursor: Option<i64>,
    cold_start: bool,
) -> (before: Option<i64>)
    ensures
        page.events@.len() == 0 ==> before is None && *final(newest) == *old(newest),
        page.events@.len() > 0 ==> newest_view(*final(newest)) == newest_after(newest_view(*old(newest)), page.events@)
            && before == if cold_start || reaches_cursor(page.events@, cursor) || !page.has_more {
            None
        } else {
            page.next_cursor
        },
{
    if page.events.len() == 0 {
        return None;
    }
    let reached = scan_page(newest, &page.events, cursor);
    next_page_before(cold_start, reached, page.has_more, page.next_cursor)
}

/// The outcome of a cold-start poll, which only seeds the cursor to the
/// newest event (when there is one) and processes nothing.
pub fn cold_start_outcome(newest: &Option<(i64, String)>) -> (o: RestIngestOutcome)
    ensures
        o.processed == 0,
        o.cold_start_seeded == newest is Some,
{
    RestIngestOutcome { processed: 0, cold_start_seeded: newest.is_some() }
}

/// An event is new for a cursor when it is strictly newer.
pub open spec fn is_new(e: NostrEvent, cursor: Option<i64>) -> bool {
    match cursor {
        Some(c) => e.created_at > c,
        None => true,
    }
}

/// Event `i` is the first new event with its id.
pub open spec fn first_new(events: Seq<NostrEvent>, i: int, cursor: Option<i64>) -> bool {
    &&& is_new(events[i], cursor)
    &&& forall|j: int| 0 <= j < i && is_new(#[trigger] events[j], cursor) ==> events[j].id@ != events[i].id@
}

/// Events in strictly increasing `(created_at, id)` order.
pub open spec fn sorted_by_key(v: Seq<NostrEvent>) -> bool {
    forall|i: int, j: int|
        0 <= i < j < v.len() ==> key_lt(
            #[trigger] v[i].created_at,
            v[i].id@,
            #[trigger] v[j].created_at,
            v[j].id@,
        )
}

/// The events new for a cursor, each id once (its first occurrence), oldest
/// first (ties by id), so the per-event cursor advances monotonically.
pub open spec fn selected_events(events: Seq<NostrEvent>, cursor: Option<i64>, res: Seq<NostrEvent>) -> bool {
    &&& sorted_by_key(res)
    &&& forall|k: int| #![trigger res[k]] 0 <= k < res.len() ==> first_new_among(events, cursor, events.len() as int, res[k])
    &&& forall|i: int| #![trigger events[i]] 0 <= i < events.len() && first_new(events, i, cursor) ==> res.contains(events[i])
}

/// Every new event has a first new occurrence of its id at or before it.
proof fn lemma_first_occurrence(events: Seq<NostrEvent>, cursor: Option<i64>, i: int)
    requires
        0 <= i < events.len(),
        is_new(events[i], cursor),
    ensures
        exists|j: int| 0 <= j <= i && first_new(events, j, cursor) && events[j].id@ == events[i].id@,
    decreases i,
{
    if !first_new(events, i, cursor) {
        let j = choose|j: int| 0 <= j < i && is_new(#[trigger] events[j], cursor) && events[j].id@ == events[i].id@;
        lemma_first_occurrence(events, cursor, j);
        let j2 = choose|j2: int| 0 <= j2 <= j && first_new(events, j2, cursor) && events[j2].id@ == events[j].id@;
        assert(0 <= j2 <= i && first_new(events, j2, cursor) && events[j2].id@ == events[i].id@);
    }
}

/// The selection holds the new ids once each, each by its first new
/// occurrence, in increasing `(created_at, id)` order, and every new id is
/// among them.
pub proof fn selection_is_each_new_id_once(events: Seq<NostrEvent>, cursor: Option<i64>, res: Seq<NostrEvent>)
    requires
        selected_events(events, cursor, res),
    ensures
        sorted_by_key(res),
        forall|i: int, j: int| 0 <= i < j < res.len() ==> (#[trigger] res[i]).id@ != (#[trigger] res[j]).id@,
        forall|k: int| 0 <= k < res.len() ==> first_new_among(events, cursor, events.len() as int, #[trigger] res[k]),
        forall|i: int|
            0 <= i < events.len() && is_new(#[trigger] events[i], cursor) ==> exists|k: int|
                0 <= k < res.len() && res[k].id@ == events[i].id@,
{
    assert forall|i: int, j: int| 0 <= i < j < res.len() implies (#[trigger] res[i]).id@ != (#[trigger] res[j]).id@ by {
        assert(first_new_among(events, cursor, events.len() as int, res[i]));
        assert(first_new_among(events, cursor, events.len() as int, res[j]));
        let a = choose|a: int| 0 <= a < events.len() && first_new(events, a, cursor) && events[a] == res[i];
        let b = choose|b: int| 0 <= b < events.len() && first_new(events, b, cursor) && events[b] == res[j];
        if res[i].id@ == res[j].id@ {
            if a < b {
                assert(is_new(events[a], cursor));
            } else if b < a {
                assert(is_new(events[b], cursor));
            } else {
                assert(key_lt(res[i].created_at, res[i].id@, res[j].created_at, res[j].id@));
                lemma_str_lt_irreflexive(res[i].id@);
            }
        }
    }
    assert forall|i: int| 0 <= i < events.len() && is_new(#[trigger] events[i], cursor) implies exists|k: int|
        0 <= k < res.len() && res[k].id@ == events[i].id@ by {
        lemma_first_occurrence(events, cursor, i);
        let j = choose|j: int| 0 <= j <= i && first_new(events, j, cursor) && events[j].id@ == events[i].id@;
        assert(res.contains(events[j]));
        let k = choose|k: int| 0 <= k < res.len() && res[k] == events[j];
        assert(res[k].id@ == events[i].id@);
    }
}

/// `key_lt` is a strict order on keys.
proof fn lemma_key_lt_transitive(t1: i64, a: Seq<char>, t2: i64, b: Seq<char>, t3: i64, c: Seq<char>)
    requires
        key_lt(t1, a, t2, b),
        key_lt(t2, b, t3, c),
    ensures
        key_lt(t1, a, t3, c),
{
    if t1 == t2 && t2 == t3 {
        lemma_str_lt_transitive(a, b, c);
    }
}

/// Insert an event into a list sorted by key, where no event has its id.
fn insert_by_key(v: &mut Vec<NostrEvent>, e: NostrEvent)
    requires
        sorted_by_key(old(v)@),
        forall|i: int| 0 <= i < old(v)@.len() ==> (#[trigger] old(v)@[i]).id@ != e.id@,
    ensures
        sorted_by_key(final(v)@),
        final(v)@.len() == old(v)@.len() + 1,
        forall|x: NostrEvent| #[trigger] final(v)@.contains(x) <==> (x == e || old(v)@.contains(x)),
{
    let mut k: usize = 0;
    while k < v.len() && (v[k].created_at < e.created_at || (v[k].created_at == e.created_at && str_less(
        v[k].id.as_str(),
        e.id.as_str(),
    )))
        invariant
            k <= v@.len(),
            sorted_by_key(v@),
            forall|i: int| 0 <= i < k ==> key_lt(#[trigger] v@[i].created_at, v@[i].id@, e.created_at, e.id@),
        decreases v.len() - k,
    {
        k += 1;
    }
    let ghost old_v = v@;
    proof {
        if k < old_v.len() {
            lemma_str_lt_total(old_v[k as int].id@, e.id@);
            assert(key_lt(e.created_at, e.id@, old_v[k as int].created_at, old_v[k as int].id@));
        }
    }
    v.insert(k, e);
    proof {
        assert forall|i: int, j: int| 0 <= i < j < v@.len() implies key_lt(
            #[trigger] v@[i].created_at,
            v@[i].id@,
            #[trigger] v@[j].created_at,
            v@[j].id@,
        ) by {
            if j == k {
            } else if i == k {
                if j - 1 > k {
                    lemma_key_lt_transitive(
                        e.created_at,
                        e.id@,
                        old_v[k as int].created_at,
                        old_v[k as int].id@,
                        old_v[j - 1].created_at,
                        old_v[j - 1].id@,
                    );
                }
            } else if i < k && j > k {
                if j - 1 > k {
                    lemma_key_lt_transitive(
                        e.created_at,
                        e.id@,
                        old_v[k as int].created_at,
                        old_v[k as int].id@,
                        old_v[j - 1].created_at,
                        old_v[j - 1].id@,
                    );
                }
                lemma_key_lt_transitive(
                    old_v[i].created_at,
                    old_v[i].id@,
                    e.created_at,
                    e.id@,
                    old_v[j - 1].created_at,
                    old_v[j - 1].id@,
                );
            } else if i > k {
                assert(v@[i] == old_v[i - 1]);
                assert(v@[j] == old_v[j - 1]);
            }
        }
        assert forall|x: NostrEvent| #[trigger] v@.contains(x) <==> (x == e || old_v.contains(x)) by {
            if x == e {
                assert(v@[k as int] == x);
            }
            if old_v.contains(x) {
                let i = choose|i: int| 0 <= i < old_v.len() && old_v[i] == x;
                if i < k {
                    assert(v@[i] == x);
                } else {
                    assert(v@[i + 1] == x);
                }
            }
            if v@.contains(x) {
                let i = choose|i: int| 0 <= i < v@.len() && v@[i] == x;
                if i < k {
                    assert(old_v[i] == x);
                } else if i > k {
                    assert(old_v[i - 1] == x);
                }
            }
        }
    }
}

/// Whether some selected event has the id `id`.
fn has_id(v: &Vec<NostrEvent>, id: &str) -> (res: bool)
    ensures
        res == exists|i: int| 0 <= i < v@.len() && (#[trigger] v@[i]).id@ == id@,
{
    let mut i: usize = 0;
    while i < v.len()
        invariant
            i <= v@.len(),
            forall|j: int| 0 <= j < i ==> (#[trigger] v@[j]).id@ != id@,
        decreases v.len() - i,
    {
        if str_equal(v[i].id.as_str(), id) {
            return true;
        }
        i += 1;
    }
    false
}

/// `x` is one of the first `n` events and the first new one with its id.
pub open spec fn first_new_among(all: Seq<NostrEvent>, cursor: Option<i64>, n: int, x: NostrEvent) -> bool {
    exists|j: int| 0 <= j < n && first_new(all, j, cursor) && all[j] == x
}

/// What the selection holds after looking at the first `n` events.
pub open spec fn selection_inv(all: Seq<NostrEvent>, cursor: Option<i64>, n: int, sel: Seq<NostrEvent>) -> bool {
    &&& sorted_by_key(sel)
    &&& forall|k: int| #![trigger sel[k]] 0 <= k < sel.len() ==> first_new_among(all, cursor, n, sel[k])
    &&& forall|j: int| 0 <= j < n && first_new(all, j, cursor) ==> #[trigger] sel.contains(all[j])
    &&& forall|j: int| 0 <= j < n && is_new(#[trigger] all[j], cursor) ==> exists|k: int|
        0 <= k < sel.len() && sel[k].id@ == all[j].id@
}

/// A new event whose id is not selected yet is the first with its id, and
/// no selected event has its id.
proof fn lemma_unseen_is_first(all: Seq<NostrEvent>, cursor: Option<i64>, n: int, sel: Seq<NostrEvent>)
    requires
        0 <= n < all.len(),
        selection_inv(all, cursor, n, sel),
        is_new(all[n], cursor),
        !exists|i: int| 0 <= i < sel.len() && (#[trigger] sel[i]).id@ == all[n].id@,
    ensures
        first_new(all, n, cursor),
        forall|i: int| 0 <= i < sel.len() ==> (#[trigger] sel[i]).id@ != all[n].id@,
{
    assert forall|j: int| 0 <= j < n && is_new(#[trigger] all[j], cursor) implies all[j].id@ != all[n].id@ by {
        let k = choose|k: int| 0 <= k < sel.len() && sel[k].id@ == all[j].id@;
    }
}

/// Every selected event after an insertion is a first new event.
proof fn lemma_insert_origin(
    all: Seq<NostrEvent>,
    cursor: Option<i64>,
    n: int,
    before: Seq<NostrEvent>,
    after: Seq<NostrEvent>,
)
    requires
        0 <= n < all.len(),
        selection_inv(all, cursor, n, before),
        first_new(all, n, cursor),
        forall|x: NostrEvent| #[trigger] after.contains(x) <==> (x == all[n] || before.contains(x)),
    ensures
        forall|k: int| #![trigger after[k]] 0 <= k < after.len() ==> first_new_among(all, cursor, n + 1, after[k]),
{
    assert forall|k: int| #![trigger after[k]] 0 <= k < after.len() implies first_new_among(all, cursor, n + 1, after[k]) by {
        let x = after[k];
        assert(after.contains(x));
        if x != all[n] {
            assert(before.contains(x));
            let kk = choose|kk: int| 0 <= kk < before.len() && before[kk] == x;
            assert(first_new_among(all, cursor, n, before[kk]));
            let j = choose|j: int| 0 <= j < n && first_new(all, j, cursor) && all[j] == before[kk];
            assert(0 <= j < n + 1 && first_new(all, j, cursor) && all[j] == x);
        } else {
            assert(0 <= n < n + 1 && first_new(all, n, cursor) && all[n] == x);
        }
    }
}

/// Every first new event seen so far stays selected after an insertion.
proof fn lemma_insert_keeps(
    all: Seq<NostrEvent>,
    cursor: Option<i64>,
    n: int,
    before: Seq<NostrEvent>,
    after: Seq<NostrEvent>,
)
    requires
        0 <= n < all.len(),
        selection_inv(all, cursor, n, before),
        forall|x: NostrEvent| #[trigger] after.contains(x) <==> (x == all[n] || before.contains(x)),
    ensures
        forall|j: int| 0 <= j < n + 1 && first_new(all, j, cursor) ==> #[trigger] after.contains(all[j]),
        forall|j: int| 0 <= j < n + 1 && is_new(#[trigger] all[j], cursor) ==> exists|k: int|
            0 <= k < after.len() && after[k].id@ == all[j].id@,
{
    assert(after.contains(all[n]));
    assert forall|j: int| 0 <= j < n + 1 && first_new(all, j, cursor) implies #[trigger] after.contains(all[j]) by {
        if j < n {
            assert(before.contains(all[j]));
        }
    }
    assert forall|j: int| 0 <= j < n + 1 && is_new(#[trigger] all[j], cursor) implies exists|k: int|
        0 <= k < after.len() && after[k].id@ == all[j].id@ by {
        if j < n {
            let kk = choose|kk: int| 0 <= kk < before.len() && before[kk].id@ == all[j].id@;
            assert(after.contains(before[kk]));
            let k = choose|k: int| 0 <= k < after.len() && after[k] == before[kk];
            assert(after[k].id@ == all[j].id@);
        } else {
            let k = choose|k: int| 0 <= k < after.len() && after[k] == all[n];
            assert(after[k].id@ == all[j].id@);
        }
    }
}

/// Skipping an event that is old or whose id is already selected keeps the
/// selection's invariant one event further.
proof fn lemma_inv_after_skip(all: Seq<NostrEvent>, cursor: Option<i64>, n: int, sel: Seq<NostrEvent>)
    requires
        0 <= n < all.len(),
        selection_inv(all, cursor, n, sel),
        !is_new(all[n], cursor) || exists|i: int| 0 <= i < sel.len() && (#[trigger] sel[i]).id@ == all[n].id@,
    ensures
        selection_inv(all, cursor, n + 1, sel),
{
    if is_new(all[n], cursor) {
        let k = choose|k: int| 0 <= k < sel.len() && (#[trigger] sel[k]).id@ == all[n].id@;
        assert(first_new_among(all, cursor, n, sel[k]));
        let j = choose|j: int| 0 <= j < n && first_new(all, j, cursor) && all[j] == sel[k];
        assert(is_new(all[j], cursor));
        assert(!first_new(all, n, cursor));
    }
    assert forall|k: int| #![trigger sel[k]] 0 <= k < sel.len() implies first_new_among(all, cursor, n + 1, sel[k]) by {
        assert(first_new_among(all, cursor, n, sel[k]));
        let j = choose|j: int| 0 <= j < n && first_new(all, j, cursor) && all[j] == sel[k];
        assert(0 <= j < n + 1 && first_new(all, j, cursor) && all[j] == sel[k]);
    }
    assert forall|j: int| 0 <= j < n + 1 && first_new(all, j, cursor) implies #[trigger] sel.contains(all[j]) by {
        if j == n {
            assert(false);
        }
    }
    assert forall|j: int| 0 <= j < n + 1 && is_new(#[trigger] all[j], cursor) implies exists|k: int|
        0 <= k < sel.len() && sel[k].id@ == all[j].id@ by {
        if j == n {
            let k = choose|k: int| 0 <= k < sel.len() && (#[trigger] sel[k]).id@ == all[n].id@;
            assert(0 <= k < sel.len() && sel[k].id@ == all[j].id@);
        }
    }
}

/// From a batch of fetched events, pick the ones newer than `cursor`, each
/// id once, sorted oldest-first.
pub fn select_new_events(events: Vec<NostrEvent>, cursor: Option<i64>) -> (res: Vec<NostrEvent>)
    ensures
        selected_events(events@, cursor, res@),
{
    let ghost all = events@;
    let total = events.len();
    let mut rest = events;
    let mut selected: Vec<NostrEvent> = Vec::new();
    let mut n: usize = 0;
    assert(all.skip(0) =~= all);
    while rest.len() > 0
        invariant
            all == events@,
            total == all.len(),
            n + rest@.len() == all.len(),
            rest@ == all.skip(n as int),
            selection_inv(all, cursor, n as int, selected@),
        decreases rest.len(),
    {
        let e = rest.remove(0);
        assert(e == all[n as int]);
        assert(rest@ =~= all.skip(n + 1));
        let fresh = match cursor {
            Some(c) => e.created_at > c,
            None => true,
        };
        if fresh && !has_id(&selected, e.id.as_str()) {
            proof {
                lemma_unseen_is_first(all, cursor, n as int, selected@);
            }
            let ghost before = selected@;
            insert_by_key(&mut selected, e);
            proof {
                lemma_insert_origin(all, cursor, n as int, before, selected@);
                lemma_insert_keeps(all, cursor, n as int, before, selected@);
            }
        } else {
            proof {
                lemma_inv_after_skip(all, cursor, n as int, selected@);
            }
        }
        n += 1;
    }
    proof {
        assert(n == all.len());
        assert(selected_events(all, cursor, selected@));
    }
    selected
}

} // verus!
