//! The lexicographic order of texts, as `str`'s `Ord` compares them.
//!
//! `str` compares UTF-8 bytes lexicographically, which orders texts as the
//! lexicographic order of their characters' code points.

use vstd::prelude::*;
use crate::chars::char_vec;

verus! {

/// `a` sorts strictly before `b`: at the first difference `a` has the smaller
/// character, or `a` is a proper prefix of `b`.
pub open spec fn str_lt(a: Seq<char>, b: Seq<char>) -> bool
    decreases a.len(),
{
    if b.len() == 0 {
        false
    } else if a.len() == 0 {
        true
    } else if a[0] != b[0] {
        a[0] < b[0]
    } else {
        str_lt(a.drop_first(), b.drop_first())
    }
}

/// No text sorts before itself.
pub proof fn lemma_str_lt_irreflexive(a: Seq<char>)
    ensures
        !str_lt(a, a),
    decreases a.len(),
{
    if a.len() > 0 {
        lemma_str_lt_irreflexive(a.drop_first());
    }
}

/// The order is transitive.
pub proof fn lemma_str_lt_transitive(a: Seq<char>, b: Seq<char>, c: Seq<char>)
    requires
        str_lt(a, b),
        str_lt(b, c),
    ensures
        str_lt(a, c),
    decreases a.len(),
{
    if a.len() > 0 && b.len() > 0 && c.len() > 0 && a[0] == b[0] && b[0] == c[0] {
        lemma_str_lt_transitive(a.drop_first(), b.drop_first(), c.drop_first());
    }
}

/// Two different texts are ordered one way or the other.
pub proof fn lemma_str_lt_total(a: Seq<char>, b: Seq<char>)
    requires
        a != b,
    ensures
        str_lt(a, b) || str_lt(b, a),
    decreases a.len(),
{
    if a.len() > 0 && b.len() > 0 && a[0] == b[0] {
        if a.drop_first() == b.drop_first() {
            assert(a =~= seq![a[0]] + a.drop_first());
            assert(b =~= seq![b[0]] + b.drop_first());
        }
        lemma_str_lt_total(a.drop_first(), b.drop_first());
    } else if a.len() == 0 && b.len() == 0 {
        assert(a =~= b);
    } else if a.len() > 0 && b.len() > 0 {
        assert(a[0] != b[0]);
    }
}

/// The order is asymmetric.
pub proof fn lemma_str_lt_asymmetric(a: Seq<char>, b: Seq<char>)
    requires
        str_lt(a, b),
    ensures
        !str_lt(b, a),
{
    if str_lt(b, a) {
        lemma_str_lt_transitive(a, b, a);
        lemma_str_lt_irreflexive(a);
    }
}

/// Whether `a` sorts strictly before `b`.
pub fn str_less(a: &str, b: &str) -> (res: bool)
    ensures
        res == str_lt(a@, b@),
{
    let va = char_vec(a);
    let vb = char_vec(b);
    let mut i: usize = 0;
    assert(a@.skip(0) =~= a@);
    assert(b@.skip(0) =~= b@);
    while i < va.len() && i < vb.len() && va[i] == vb[i]
        invariant
            i <= va@.len(),
            i <= vb@.len(),
            va@ == a@,
            vb@ == b@,
            str_lt(a@, b@) == str_lt(a@.skip(i as int), b@.skip(i as int)),
        decreases va.len() - i,
    {
        assert(a@.skip(i as int).drop_first() =~= a@.skip(i + 1));
        assert(b@.skip(i as int).drop_first() =~= b@.skip(i + 1));
        i += 1;
    }
    if i == vb.len() {
        false
    } else if i == va.len() {
        true
    } else {
        va[i] < vb[i]
    }
}

/// Sort key of an event: creation time, then id.
pub open spec fn key_lt(t1: i64, id1: Seq<char>, t2: i64, id2: Seq<char>) -> bool {
    t1 < t2 || (t1 == t2 && str_lt(id1, id2))
}


/// Whether a list holds the text `x`.
pub open spec fn has_text(v: Seq<String>, x: Seq<char>) -> bool {
    exists|i: int| 0 <= i < v.len() && #[trigger] v[i]@ == x
}

/// Texts in strictly increasing order (so none twice).
pub open spec fn strictly_sorted(v: Seq<String>) -> bool {
    forall|i: int, j: int| 0 <= i < j < v.len() ==> str_lt(#[trigger] v[i]@, #[trigger] v[j]@)
}

/// Insert a text into a strictly sorted list unless it is already there.
pub fn insert_sorted_unique(v: &mut Vec<String>, s: String)
    requires
        strictly_sorted(old(v)@),
    ensures
        strictly_sorted(final(v)@),
        forall|x: Seq<char>| #[trigger] has_text(final(v)@, x) <==> (x == s@ || has_text(old(v)@, x)),
{
    let mut k: usize = 0;
    while k < v.len() && str_less(v[k].as_str(), s.as_str())
        invariant
            k <= v@.len(),
            strictly_sorted(v@),
            forall|i: int| 0 <= i < k ==> str_lt(#[trigger] v@[i]@, s@),
        decreases v.len() - k,
    {
        k += 1;
    }
    if k < v.len() && crate::chars::str_equal(v[k].as_str(), s.as_str()) {
        assert forall|x: Seq<char>| #[trigger] has_text(v@, x) <==> (x == s@ || has_text(v@, x)) by {
            if x == s@ {
                assert(v@[k as int]@ == x);
            }
        }
        return;
    }
    proof {
        if k < v@.len() {
            assert(!str_lt(v@[k as int]@, s@));
            lemma_str_lt_total(v@[k as int]@, s@);
            assert(str_lt(s@, v@[k as int]@));
        }
    }
    let ghost old_v = v@;
    v.insert(k, s);
    proof {
        assert forall|i: int, j: int| 0 <= i < j < v@.len() implies str_lt(#[trigger] v@[i]@, #[trigger] v@[j]@) by {
            if j == k {
                assert(str_lt(old_v[i]@, s@));
            } else if i == k {
                assert(v@[j] == old_v[j - 1]);
                if j - 1 > k {
                    assert(str_lt(old_v[k as int]@, old_v[j - 1]@));
                    lemma_str_lt_transitive(s@, old_v[k as int]@, old_v[j - 1]@);
                }
            } else if i < k && j > k {
                assert(str_lt(old_v[i]@, s@));
                if j - 1 > k {
                    assert(str_lt(old_v[k as int]@, old_v[j - 1]@));
                    lemma_str_lt_transitive(s@, old_v[k as int]@, old_v[j - 1]@);
                }
                lemma_str_lt_transitive(old_v[i]@, s@, old_v[j - 1]@);
            } else if i > k {
                assert(v@[i] == old_v[i - 1]);
                assert(v@[j] == old_v[j - 1]);
            }
        }
        assert forall|x: Seq<char>| #[trigger] has_text(v@, x) <==> (x == s@ || has_text(old_v, x)) by {
            if x == s@ {
                assert(v@[k as int]@ == x);
            }
            if has_text(old_v, x) {
                let i = choose|i: int| 0 <= i < old_v.len() && #[trigger] old_v[i]@ == x;
                if i < k {
                    assert(v@[i]@ == x);
                } else {
                    assert(v@[i + 1]@ == x);
                }
            }
            if has_text(v@, x) {
                let i = choose|i: int| 0 <= i < v@.len() && #[trigger] v@[i]@ == x;
                if i < k {
                    assert(old_v[i]@ == x);
                } else if i > k {
                    assert(old_v[i - 1]@ == x);
                }
            }
        }
    }
}

/// The texts of a list, sorted, each once.
pub fn sort_dedup_strings(v: Vec<String>) -> (res: Vec<String>)
    ensures
        strictly_sorted(res@),
        forall|x: Seq<char>| #[trigger] has_text(res@, x) <==> has_text(v@, x),
{
    let mut res: Vec<String> = Vec::new();
    let mut i: usize = 0;
    while i < v.len()
        invariant
            i <= v@.len(),
            strictly_sorted(res@),
            forall|x: Seq<char>| #[trigger] has_text(res@, x) <==> has_text(v@.take(i as int), x),
        decreases v.len() - i,
    {
        let ghost before = res@;
        insert_sorted_unique(&mut res, v[i].clone());
        proof {
            let ghost t1 = v@.take(i + 1);
            let ghost t0 = v@.take(i as int);
            assert forall|x: Seq<char>| #[trigger] has_text(res@, x) <==> has_text(t1, x) by {
                if x == v@[i as int]@ {
                    assert(t1[i as int]@ == x);
                }
                if has_text(t1, x) {
                    let j = choose|j: int| 0 <= j < t1.len() && #[trigger] t1[j]@ == x;
                    if j < i {
                        assert(t0[j]@ == x);
                    }
                }
                if has_text(t0, x) {
                    let j = choose|j: int| 0 <= j < t0.len() && #[trigger] t0[j]@ == x;
                    assert(t1[j]@ == x);
                }
            }
        }
        i += 1;
    }
    assert(v@.take(v@.len() as int) =~= v@);
    res
}

} // verus!
