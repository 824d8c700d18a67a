//! Historical backfill of a newly linked account: its relay history is
//! replayed oldest first.
//!
//! Fetching the history and queueing the events are the caller's; this
//! module orders the history.

use vstd::prelude::*;
use crate::event::NostrEvent;
use crate::order::{key_lt, lemma_str_lt_asymmetric, lemma_str_lt_total, lemma_str_lt_transitive, str_less};

verus! {

broadcast use vstd::seq_lib::group_seq_properties;

/// Events in non-decreasing `(created_at, id)` order.
pub open spec fn ordered_by_key(v: Seq<NostrEvent>) -> bool {
    forall|i: int, j: int|
        0 <= i < j < v.len() ==> !key_lt(
            #[trigger] v[j].created_at,
            v[j].id@,
            #[trigger] v[i].created_at,
            v[i].id@,
        )
}

/// The events of `v` with the key `(t, id)`, in order.
pub open spec fn with_key(v: Seq<NostrEvent>, t: i64, id: Seq<char>) -> Seq<NostrEvent> {
    v.filter(|e: NostrEvent| e.created_at == t && e.id@ == id)
}

/// The replay order of a history: sorted by `(created_at, id)`, and events
/// with the same key keep their order (a stable sort).
pub open spec fn replay_order(events: Seq<NostrEvent>, res: Seq<NostrEvent>) -> bool {
    &&& ordered_by_key(res)
    &&& forall|t: i64, id: Seq<char>| #[trigger] with_key(res, t, id) == with_key(events, t, id)
}

/// Whether `a`'s key is below `b`'s.
fn key_before(a: &NostrEvent, b: &NostrEvent) -> (r: bool)
    ensures
        r == key_lt(a.created_at, a.id@, b.created_at, b.id@),
{
    a.created_at < b.created_at || (a.created_at == b.created_at && str_less(a.id.as_str(), b.id.as_str()))
}

/// Filtering a sequence with one more element.
proof fn lemma_with_key_push(s: Seq<NostrEvent>, x: NostrEvent, t: i64, id: Seq<char>)
    ensures
        with_key(s.push(x), t, id) == if x.created_at == t && x.id@ == id {
            with_key(s, t, id).push(x)
        } else {
            with_key(s, t, id)
        },
{
    reveal(Seq::filter);
    assert(s.push(x).drop_last() =~= s);
}

/// No event of `s` has the key `(t, id)`.
proof fn lemma_with_key_none(s: Seq<NostrEvent>, t: i64, id: Seq<char>)
    requires
        forall|i: int| 0 <= i < s.len() ==> !((#[trigger] s[i]).created_at == t && s[i].id@ == id),
    ensures
        with_key(s, t, id) == Seq::<NostrEvent>::empty(),
    decreases s.len(),
{
    reveal(Seq::filter);
    if s.len() > 0 {
        lemma_with_key_none(s.drop_last(), t, id);
    }
}

/// Insert `e` after every event whose key is at most its own.
fn insert_stable(v: &mut Vec<NostrEvent>, e: NostrEvent)
    requires
        ordered_by_key(old(v)@),
    ensures
        ordered_by_key(final(v)@),
        forall|t: i64, id: Seq<char>| #[trigger] with_key(final(v)@, t, id) == if e.created_at == t && e.id@ == id {
            with_key(old(v)@, t, id).push(e)
        } else {
            with_key(old(v)@, t, id)
        },
{
    let mut k: usize = 0;
    while k < v.len() && !key_before(&e, &v[k])
        invariant
            k <= v@.len(),
            ordered_by_key(v@),
            forall|i: int| 0 <= i < k ==> !key_lt(e.created_at, e.id@, (#[trigger] v@[i]).created_at, v@[i].id@),
        decreases v.len() - k,
    {
        k += 1;
    }
    let ghost old_v = v@;
    proof {
        // every event from position k on is strictly above `e`
        assert forall|j: int| k <= j < old_v.len() implies key_lt(
            e.created_at,
            e.id@,
            (#[trigger] old_v[j]).created_at,
            old_v[j].id@,
        ) by {
            if j > k {
                assert(!key_lt(old_v[j].created_at, old_v[j].id@, old_v[k as int].created_at, old_v[k as int].id@));
                lemma_chain_below(e, old_v[k as int], old_v[j]);
            }
        }
    }
    v.insert(k, e);
    proof {
        let front = old_v.subrange(0, k as int);
        let back = old_v.subrange(k as int, old_v.len() as int);
        assert(old_v =~= front + back);
        assert(v@ =~= front.push(e) + back);
        assert forall|i: int, j: int| 0 <= i < j < v@.len() implies !key_lt(
            #[trigger] v@[j].created_at,
            v@[j].id@,
            #[trigger] v@[i].created_at,
            v@[i].id@,
        ) by {
            if j == k {
                assert(v@[i] == old_v[i]);
            } else if i == k {
                assert(v@[j] == old_v[j - 1]);
                lemma_key_strict_not_reverse(e, old_v[j - 1]);
            } else if i < k && j > k {
                assert(v@[i] == old_v[i]);
                assert(v@[j] == old_v[j - 1]);
            } else if i > k {
                assert(v@[i] == old_v[i - 1]);
                assert(v@[j] == old_v[j - 1]);
            } else {
                assert(v@[i] == old_v[i]);
                assert(v@[j] == old_v[j]);
            }
        }
        assert forall|t: i64, id: Seq<char>| #[trigger] with_key(v@, t, id) == if e.created_at == t && e.id@ == id {
            with_key(old_v, t, id).push(e)
        } else {
            with_key(old_v, t, id)
        } by {
            Seq::<NostrEvent>::filter_distributes_over_add(front, back, |x: NostrEvent| x.created_at == t && x.id@ == id);
            Seq::<NostrEvent>::filter_distributes_over_add(
                front.push(e),
                back,
                |x: NostrEvent| x.created_at == t && x.id@ == id,
            );
            lemma_with_key_push(front, e, t, id);
            if e.created_at == t && e.id@ == id {
                assert forall|i: int| 0 <= i < back.len() implies !((#[trigger] back[i]).created_at == t
                    && back[i].id@ == id) by {
                    assert(back[i] == old_v[k + i]);
                    lemma_key_irreflexive(e);
                }
                lemma_with_key_none(back, t, id);
                assert(with_key(front, t, id) + with_key(back, t, id) =~= with_key(front, t, id));
                assert(with_key(front, t, id).push(e) + with_key(back, t, id) =~= with_key(front, t, id).push(e));
            }
        }
    }
}

/// A key is never below itself.
proof fn lemma_key_irreflexive(e: NostrEvent)
    ensures
        !key_lt(e.created_at, e.id@, e.created_at, e.id@),
{
    crate::order::lemma_str_lt_irreflexive(e.id@);
}

/// Strictly below excludes the reverse.
proof fn lemma_key_strict_not_reverse(a: NostrEvent, b: NostrEvent)
    requires
        key_lt(a.created_at, a.id@, b.created_at, b.id@),
    ensures
        !key_lt(b.created_at, b.id@, a.created_at, a.id@),
{
    if a.created_at == b.created_at {
        lemma_str_lt_asymmetric(a.id@, b.id@);
    }
}

/// `a` below `b`, and `b` at most `c`, puts `a` below `c`.
proof fn lemma_chain_below(a: NostrEvent, b: NostrEvent, c: NostrEvent)
    requires
        key_lt(a.created_at, a.id@, b.created_at, b.id@),
        !key_lt(c.created_at, c.id@, b.created_at, b.id@),
    ensures
        key_lt(a.created_at, a.id@, c.created_at, c.id@),
{
    if a.created_at == b.created_at && b.created_at == c.created_at && b.id@ != c.id@ {
        lemma_str_lt_total(b.id@, c.id@);
        lemma_str_lt_transitive(a.id@, b.id@, c.id@);
    }
}

/// Order a history for replay: oldest first, ties by id, equal keys in the
/// order they came.
pub fn order_history(events: Vec<NostrEvent>) -> (res: Vec<NostrEvent>)
    ensures
        replay_order(events@, res@),
{
    let ghost all = events@;
    let mut rest = events;
    let mut out: Vec<NostrEvent> = Vec::new();
    let mut n: usize = 0;
    let total = rest.len();
    proof {
        assert forall|t: i64, id: Seq<char>| #[trigger] with_key(out@, t, id) == with_key(all.take(0), t, id) by {
            reveal(Seq::filter);
            assert(all.take(0) =~= Seq::<NostrEvent>::empty());
        }
    }
    while rest.len() > 0
        invariant
            total == all.len(),
            n + rest@.len() == all.len(),
            rest@ == all.skip(n as int),
            ordered_by_key(out@),
            forall|t: i64, id: Seq<char>| #[trigger] with_key(out@, t, id) == with_key(all.take(n as int), t, id),
        decreases rest.len(),
    {
        let e = rest.remove(0);
        assert(e == all[n as int]);
        let ghost before = out@;
        insert_stable(&mut out, e);
        proof {
            assert(all.take(n + 1) =~= all.take(n as int).push(e));
            assert forall|t: i64, id: Seq<char>| #[trigger] with_key(out@, t, id) == with_key(all.take(n + 1), t, id) by {
                lemma_with_key_push(all.take(n as int), e, t, id);
                assert(with_key(before, t, id) == with_key(all.take(n as int), t, id));
            }
        }
        n += 1;
        assert(rest@ =~= all.skip(n as int));
    }
    assert(all.take(n as int) =~= all);
    out
}

} // verus!
