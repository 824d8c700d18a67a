//! Post text builder: turns a NIP-71 video event into ATProto post text and
//! hashtag facets.
//!
//! ATProto `feed.post.text` is limited to 300 grapheme clusters. Facet offsets
//! are UTF-8 byte positions; every `#hashtag` that starts the text or follows
//! white space becomes an `app.bsky.richtext.facet#tag` facet.

use vstd::prelude::*;
use unicode_segmentation::UnicodeSegmentation;
use crate::chars::{
    byte_len, char_utf8_width, char_vec, char_width, is_white_space, is_whitespace,
    lemma_byte_len_push, push_all, push_char, string_from_range,
};
use crate::event::{get_tag, get_tags, strings_view, tag_value, tag_values, NostrEvent};

verus! {

broadcast use vstd::seq_lib::group_seq_properties;

/// Maximum number of grapheme clusters in an ATProto post text.
pub const MAX_POST_GRAPHEMES: usize = 300;

/// A rich-text facet (ATProto `app.bsky.richtext.facet`).
#[derive(Debug, Clone, PartialEq, Eq)]
pub struct Facet {
    pub index: FacetIndex,
    pub features: Vec<FacetFeature>,
}

/// Byte-offset range within UTF-8 text.
#[derive(Debug, Clone, Copy, PartialEq, Eq, Structural)]
pub struct FacetIndex {
    pub byte_start: usize,
    pub byte_end: usize,
}

/// The feature attached to a facet.
#[derive(Debug, Clone, PartialEq, Eq)]
pub enum FacetFeature {
    Tag { tag: String },
}

// ---------------------------------------------------------------------------
// Grapheme truncation
// ---------------------------------------------------------------------------

/// The extended grapheme clusters of a text, as `unicode_segmentation` splits it.
pub uninterp spec fn extended_grapheme_clusters(s: Seq<char>) -> Seq<Seq<char>>;

/// `UnicodeSegmentation::graphemes(s, true)`: the extended grapheme clusters of
/// `s`. The crate yields consecutive, non-empty slices of `s` that together
/// cover it; which boundaries it picks (UAX #29) is left to the name.
#[verifier::external_body]
fn grapheme_clusters(s: &str) -> (res: Vec<String>)
    ensures
        strings_view(res@) == extended_grapheme_clusters(s@),
        strings_view(res@).flatten() == s@,
        forall|i: int| 0 <= i < res@.len() ==> (#[trigger] res@[i])@.len() > 0,
{
    s.graphemes(true).map(|g| g.to_string()).collect()
}

/// The first `max` grapheme clusters of `s` (all of `s` when it has no more).
pub open spec fn truncated_text(s: Seq<char>, max: nat) -> Seq<char> {
    let g = extended_grapheme_clusters(s);
    if g.len() <= max {
        s
    } else {
        g.take(max as int).flatten()
    }
}

/// Non-empty pieces are at least as many characters as pieces.
proof fn lemma_flatten_len_ge_count(g: Seq<Seq<char>>)
    requires
        forall|i: int| 0 <= i < g.len() ==> (#[trigger] g[i]).len() > 0,
    ensures
        g.flatten().len() >= g.len(),
    decreases g.len(),
{
    if g.len() > 0 {
        lemma_flatten_len_ge_count(g.drop_last());
        assert(g.drop_last().push(g.last()) =~= g);
        g.drop_last().lemma_flatten_push(g.last());
    }
}

/// The pieces before `k` spell a prefix of what all the pieces spell.
proof fn lemma_flatten_take_prefix(g: Seq<Seq<char>>, k: int)
    requires
        0 <= k <= g.len(),
    ensures
        g.take(k).flatten().len() <= g.flatten().len(),
        g.take(k).flatten() == g.flatten().take(g.take(k).flatten().len() as int),
    decreases g.len(),
{
    if k == g.len() {
        assert(g.take(k) =~= g);
        assert(g.flatten().take(g.flatten().len() as int) =~= g.flatten());
    } else {
        let d = g.drop_last();
        lemma_flatten_take_prefix(d, k);
        assert(d.take(k) =~= g.take(k));
        assert(d.push(g.last()) =~= g);
        d.lemma_flatten_push(g.last());
        assert(g.flatten() =~= d.flatten() + g.last());
        assert(g.flatten().take(g.take(k).flatten().len() as int) =~= d.flatten().take(
            d.take(k).flatten().len() as int,
        ));
    }
}

/// Truncate a string to at most `max` grapheme clusters: a prefix of `s` made
/// of its first clusters, and `s` itself when it has at most `max` clusters
/// (so whenever it has at most `max` characters).
pub fn truncate_graphemes(s: &str, max: usize) -> (res: String)
    ensures
        res@ == truncated_text(s@, max as nat),
        extended_grapheme_clusters(s@).flatten() == s@,
        forall|i: int|
            0 <= i < extended_grapheme_clusters(s@).len() ==> (#[trigger] extended_grapheme_clusters(s@)[i]).len() > 0,
        extended_grapheme_clusters(s@).len() <= s@.len(),
        extended_grapheme_clusters(s@).len() <= max ==> res@ == s@,
        s@.len() <= max ==> res@ == s@,
        res@ == s@.take(res@.len() as int),
{
    let clusters = grapheme_clusters(s);
    proof {
        lemma_flatten_len_ge_count(strings_view(clusters@));
        if strings_view(clusters@).len() > max {
            lemma_flatten_take_prefix(strings_view(clusters@), max as int);
        } else {
            assert(s@.take(s@.len() as int) =~= s@);
        }
    }
    if clusters.len() <= max {
        return s.to_owned();
    }
    let ghost g = strings_view(clusters@);
    let mut res = String::new();
    let mut i: usize = 0;
    while i < max
        invariant
            i <= max < clusters@.len(),
            g == strings_view(clusters@),
            res@ == g.take(i as int).flatten(),
        decreases max - i,
    {
        push_all(&mut res, clusters[i].as_str());
        proof {
            assert(g.take(i + 1) =~= g.take(i as int).push(g[i as int]));
            g.take(i as int).lemma_flatten_push(g[i as int]);
        }
        i += 1;
    }
    res
}

// ---------------------------------------------------------------------------
// Facet computation
// ---------------------------------------------------------------------------

/// A `#` at `p` starts a hashtag: it begins the text or follows white space,
/// and is followed by a character that is not white space.
pub open spec fn is_tag_start(s: Seq<char>, p: int) -> bool {
    &&& 0 <= p
    &&& p + 1 < s.len()
    &&& s[p] == '#'
    &&& (p == 0 || is_white_space(s[p - 1]))
    &&& !is_white_space(s[p + 1])
}

/// The first index at or after `from` that holds white space, or `s.len()`.
pub open spec fn next_ws(s: Seq<char>, from: int) -> int
    decreases s.len() - from,
{
    if from >= s.len() {
        s.len() as int
    } else if is_white_space(s[from]) {
        from
    } else {
        next_ws(s, from + 1)
    }
}

/// The hashtag starts below index `n`, in increasing order.
pub open spec fn tag_starts_below(s: Seq<char>, n: int) -> Seq<int>
    decreases n,
{
    if n <= 0 {
        Seq::empty()
    } else {
        let r = tag_starts_below(s, n - 1);
        if is_tag_start(s, n - 1) {
            r.push(n - 1)
        } else {
            r
        }
    }
}

/// All hashtag starts of `s`, in increasing order.
pub open spec fn tag_starts(s: Seq<char>) -> Seq<int> {
    tag_starts_below(s, s.len() as int)
}

/// `f` is the facet of the hashtag that starts at `p` in `s`: its byte range
/// covers `#` and the tag body up to the next white space, and its one
/// feature is the tag body.
pub open spec fn is_hashtag_facet(f: Facet, s: Seq<char>, p: int) -> bool {
    let q = next_ws(s, p + 1);
    &&& f.index.byte_start == byte_len(s.take(p))
    &&& f.index.byte_end == byte_len(s.take(q))
    &&& f.features@.len() == 1
    &&& f.features@[0] matches FacetFeature::Tag { tag } && tag@ == s.subrange(p + 1, q)
}

/// `facets` are exactly the hashtag facets of `s`, one per hashtag start, in order.
pub open spec fn hashtag_facets_of(facets: Seq<Facet>, s: Seq<char>) -> bool {
    let starts = tag_starts(s);
    &&& facets.len() == starts.len()
    &&& forall|k: int| 0 <= k < facets.len() ==> is_hashtag_facet(#[trigger] facets[k], s, starts[k])
}

/// `next_ws` lies between its start and the end, and nothing before it is white space.
proof fn lemma_next_ws(s: Seq<char>, from: int)
    requires
        0 <= from <= s.len(),
    ensures
        from <= next_ws(s, from) <= s.len(),
        forall|r: int| from <= r < next_ws(s, from) ==> !is_white_space(#[trigger] s[r]),
        next_ws(s, from) < s.len() ==> is_white_space(s[next_ws(s, from)]),
    decreases s.len() - from,
{
    if from < s.len() && !is_white_space(s[from]) {
        lemma_next_ws(s, from + 1);
    }
}

/// No hashtag starts strictly inside a tag or at the white space that ends it.
proof fn lemma_no_start_inside_tag(s: Seq<char>, p: int, q: int, n: int)
    requires
        is_tag_start(s, p),
        q == next_ws(s, p + 1),
        p < n <= q + 1,
        n <= s.len(),
    ensures
        tag_starts_below(s, n) == tag_starts_below(s, p).push(p),
    decreases n,
{
    lemma_next_ws(s, p + 1);
    if n == p + 1 {
        assert(tag_starts_below(s, n) == tag_starts_below(s, p).push(p));
    } else {
        lemma_no_start_inside_tag(s, p, q, n - 1);
        let r = n - 1;
        if r < q {
            assert(!is_white_space(s[r - 1]) || r - 1 == p);
            assert(r - 1 == p ==> s[r - 1] == '#');
            assert(!is_tag_start(s, r));
        } else {
            assert(r == q);
            assert(q < s.len() ==> is_white_space(s[q]));
            assert(!is_tag_start(s, r));
        }
    }
}

/// Byte length of a prefix grows by the width of the next character.
proof fn lemma_byte_len_take_succ(s: Seq<char>, i: int)
    requires
        0 <= i < s.len(),
    ensures
        byte_len(s.take(i + 1)) == byte_len(s.take(i)) + char_width(s[i]),
{
    assert(s.take(i + 1) =~= s.take(i).push(s[i]));
    lemma_byte_len_push(s.take(i), s[i]);
}

/// Prefix byte lengths are monotone and bounded by the whole byte length.
proof fn lemma_byte_len_take_le(s: Seq<char>, i: int, j: int)
    requires
        0 <= i <= j <= s.len(),
    ensures
        byte_len(s.take(i)) <= byte_len(s.take(j)),
    decreases j - i,
{
    if i < j {
        lemma_byte_len_take_le(s, i, j - 1);
        lemma_byte_len_take_succ(s, j - 1);
    }
}

/// The starts below `n` are tag starts, strictly increasing, and every tag
/// start below `n` is among them.
proof fn lemma_tag_starts_below(s: Seq<char>, n: int)
    ensures
        forall|i: int|
            0 <= i < tag_starts_below(s, n).len() ==> is_tag_start(s, #[trigger] tag_starts_below(s, n)[i])
                && tag_starts_below(s, n)[i] < n,
        forall|i: int, j: int|
            0 <= i < j < tag_starts_below(s, n).len() ==> #[trigger] tag_starts_below(s, n)[i]
                < #[trigger] tag_starts_below(s, n)[j],
        forall|p: int|
            0 <= p < n && #[trigger] is_tag_start(s, p) ==> exists|i: int|
                0 <= i < tag_starts_below(s, n).len() && tag_starts_below(s, n)[i] == p,
    decreases n,
{
    if n > 0 {
        lemma_tag_starts_below(s, n - 1);
        let r = tag_starts_below(s, n - 1);
        if is_tag_start(s, n - 1) {
            assert(tag_starts_below(s, n) == r.push(n - 1));
            assert forall|p: int| 0 <= p < n && #[trigger] is_tag_start(s, p) implies exists|i: int|
                0 <= i < tag_starts_below(s, n).len() && tag_starts_below(s, n)[i] == p by {
                if p == n - 1 {
                    assert(tag_starts_below(s, n)[r.len() as int] == p);
                } else {
                    let i = choose|i: int| 0 <= i < r.len() && r[i] == p;
                    assert(tag_starts_below(s, n)[i] == p);
                }
            }
        }
    }
}

/// Every character encodes to at least one byte.
proof fn lemma_char_width_positive(c: char)
    ensures
        char_width(c) >= 1,
{
    assert(vstd::utf8::encode_scalar(c as u32).len() >= 1);
}

/// Strictly longer prefixes have strictly more bytes.
proof fn lemma_byte_len_take_lt(s: Seq<char>, i: int, j: int)
    requires
        0 <= i < j <= s.len(),
    ensures
        byte_len(s.take(i)) < byte_len(s.take(j)),
{
    lemma_byte_len_take_succ(s, i);
    lemma_char_width_positive(s[i]);
    lemma_byte_len_take_le(s, i + 1, j);
}

/// The facets of a text's hashtags: each covers, in UTF-8 bytes, a `#` at
/// the start of the text or after white space and the non-white-space tag
/// body up to the next white space or the end, with that body as its tag;
/// the facets are strictly increasing and disjoint; and every such `#`
/// starts one of them.
pub proof fn hashtag_facets_are_disjoint_tags(facets: Seq<Facet>, s: Seq<char>)
    requires
        hashtag_facets_of(facets, s),
    ensures
        forall|k: int|
            0 <= k < facets.len() ==> {
                let p = #[trigger] tag_starts(s)[k];
                let q = next_ws(s, p + 1);
                &&& 0 <= p && p + 1 < q <= s.len()
                &&& s[p] == '#' && (p == 0 || is_white_space(s[p - 1]))
                &&& forall|r: int| p < r < q ==> !is_white_space(#[trigger] s[r])
                &&& q == s.len() || is_white_space(s[q])
                &&& facets[k].index.byte_start == byte_len(s.take(p))
                &&& facets[k].index.byte_end == byte_len(s.take(q))
                &&& facets[k].index.byte_start < facets[k].index.byte_end <= byte_len(s)
                &&& facets[k].features@.len() == 1
                &&& facets[k].features@[0] matches FacetFeature::Tag { tag } && tag@ == s.subrange(p + 1, q)
            },
        forall|k: int|
            0 <= k < facets.len() - 1 ==> #[trigger] facets[k].index.byte_end < facets[k + 1].index.byte_start,
        forall|p: int| #[trigger] is_tag_start(s, p) ==> exists|k: int| 0 <= k < facets.len() && tag_starts(s)[k] == p,
{
    let st = tag_starts(s);
    lemma_tag_starts_below(s, s.len() as int);
    assert forall|k: int| 0 <= k < facets.len() implies {
        let p = #[trigger] tag_starts(s)[k];
        let q = next_ws(s, p + 1);
        &&& 0 <= p && p + 1 < q <= s.len()
        &&& s[p] == '#' && (p == 0 || is_white_space(s[p - 1]))
        &&& forall|r: int| p < r < q ==> !is_white_space(#[trigger] s[r])
        &&& q == s.len() || is_white_space(s[q])
        &&& facets[k].index.byte_start == byte_len(s.take(p))
        &&& facets[k].index.byte_end == byte_len(s.take(q))
        &&& facets[k].index.byte_start < facets[k].index.byte_end <= byte_len(s)
        &&& facets[k].features@.len() == 1
        &&& facets[k].features@[0] matches FacetFeature::Tag { tag } && tag@ == s.subrange(p + 1, q)
    } by {
        let p = st[k];
        assert(is_tag_start(s, p));
        assert(is_hashtag_facet(facets[k], s, p));
        lemma_next_ws(s, p + 1);
        let q = next_ws(s, p + 1);
        assert(q != p + 1);
        lemma_byte_len_take_lt(s, p, q);
        lemma_byte_len_take_le(s, q, s.len() as int);
        assert(s.take(s.len() as int) =~= s);
    }
    assert forall|k: int| 0 <= k < facets.len() - 1 implies #[trigger] facets[k].index.byte_end
        < facets[k + 1].index.byte_start by {
        let p = st[k];
        let p2 = st[k + 1];
        assert(p < p2);
        assert(is_tag_start(s, p) && is_tag_start(s, p2));
        assert(is_hashtag_facet(facets[k], s, p));
        assert(is_hashtag_facet(facets[k + 1], s, p2));
        lemma_next_ws(s, p + 1);
        let q = next_ws(s, p + 1);
        assert(is_white_space(s[p2 - 1]));
        assert(p2 - 1 >= p + 1) by {
            if p2 - 1 == p {
                assert(s[p] == '#');
            }
        }
        assert(q <= p2 - 1) by {
            if q > p2 - 1 {
                assert(!is_white_space(s[p2 - 1]));
            }
        }
        lemma_byte_len_take_lt(s, q, p2);
    }
}

/// Exact UTF-8 byte length of a string (`str::len`).
#[verifier::external_body]
pub(crate) fn utf8_byte_len(s: &str) -> (n: usize)
    ensures
        n as nat == byte_len(s@),
{
    s.len()
}

/// Scan `text` for `#hashtag` tokens and return a facet for each one.
/// Byte offsets are computed on the UTF-8 representation of `text`.
pub fn compute_hashtag_facets(text: &str) -> (facets: Vec<Facet>)
    ensures
        hashtag_facets_of(facets@, text@),
{
    let total = utf8_byte_len(text);
    let s = char_vec(text);
    let n = s.len();
    let ghost sv = s@;
    let mut facets: Vec<Facet> = Vec::new();
    let mut i: usize = 0;
    // byte offset of character i
    let mut b: usize = 0;
    while i < n
        invariant
            sv == s@,
            sv == text@,
            n == sv.len(),
            i <= n,
            b as nat == byte_len(sv.take(i as int)),
            total as nat == byte_len(sv),
            facets@.len() == tag_starts_below(sv, i as int).len(),
            forall|k: int|
                0 <= k < facets@.len() ==> is_hashtag_facet(
                    #[trigger] facets@[k],
                    sv,
                    tag_starts_below(sv, i as int)[k],
                ),
        decreases n - i,
    {
        proof {
            lemma_byte_len_take_succ(sv, i as int);
            lemma_byte_len_take_le(sv, i + 1, n as int);
            assert(sv.take(n as int) =~= sv);
        }
        let c = s[i];
        let starts_here = c == '#' && (i == 0 || is_whitespace(s[i - 1])) && i + 1 < n
            && !is_whitespace(s[i + 1]);
        if starts_here {
            // collect the tag body up to the next white space
            let ghost p = i as int;
            let mut q = i + 1;
            let mut bq = b + 1;
            proof {
                lemma_next_ws(sv, p + 1);
            }
            while q < n && !is_whitespace(s[q])
                invariant
                    sv == s@,
                    n == sv.len(),
                    i < q <= n,
                    q <= next_ws(sv, i + 1),
                    next_ws(sv, q as int) == next_ws(sv, i + 1),
                    bq as nat == byte_len(sv.take(q as int)),
                    total as nat == byte_len(sv),
                decreases n - q,
            {
                proof {
                    assert(next_ws(sv, q as int) == next_ws(sv, q + 1));
                    lemma_next_ws(sv, q + 1);
                    lemma_byte_len_take_succ(sv, q as int);
                    lemma_byte_len_take_le(sv, q + 1, n as int);
                    assert(sv.take(n as int) =~= sv);
                }
                bq = bq + char_utf8_width(s[q]);
                q += 1;
            }
            assert(q == next_ws(sv, i + 1));
            let tag = string_from_range(&s, i + 1, q);
            let f = Facet {
                index: FacetIndex { byte_start: b, byte_end: bq },
                features: vec![FacetFeature::Tag { tag }],
            };
            proof {
                assert(is_tag_start(sv, p));
                lemma_no_start_inside_tag(sv, p, q as int, q as int);
                assert(tag_starts_below(sv, i + 1) == tag_starts_below(sv, p).push(p));
                lemma_no_start_inside_tag(sv, p, q as int, i + 1);
            }
            facets.push(f);
            proof {
                assert(is_hashtag_facet(f, sv, p));
            }
            i = q;
            b = bq;
        } else {
            proof {
                assert(!is_tag_start(sv, i as int));
                assert(tag_starts_below(sv, i + 1) == tag_starts_below(sv, i as int));
            }
            b = b + char_utf8_width(c);
            i += 1;
        }
    }
    facets
}

// ---------------------------------------------------------------------------
// Post text
// ---------------------------------------------------------------------------

/// `"#" + t` for each tag value, joined by single spaces.
pub open spec fn hashtag_line(tags: Seq<Seq<char>>) -> Seq<char>
    decreases tags.len(),
{
    if tags.len() == 0 {
        Seq::empty()
    } else if tags.len() == 1 {
        seq!['#'] + tags[0]
    } else {
        hashtag_line(tags.drop_last()) + seq![' ', '#'] + tags.last()
    }
}

/// Two line breaks, the separator between post text sections.
pub open spec fn paragraph_break() -> Seq<char> {
    seq!['\n', '\n']
}

/// Joins two sections with a paragraph break, dropping empty ones.
pub open spec fn join_sections(a: Seq<char>, b: Seq<char>) -> Seq<char> {
    if a.len() > 0 && b.len() > 0 {
        a + paragraph_break() + b
    } else if a.len() > 0 {
        a
    } else {
        b
    }
}

/// The full post text of an event before truncation: title, then description
/// (the `summary` tag, else the content), then the hashtag line, each present
/// section separated by a paragraph break.
pub open spec fn full_post_text(tags: Seq<Seq<Seq<char>>>, content: Seq<char>) -> Seq<char> {
    let title = match tag_value(tags, "title"@) {
        Some(t) => t,
        None => Seq::empty(),
    };
    let summary = match tag_value(tags, "summary"@) {
        Some(t) => t,
        None => Seq::empty(),
    };
    let description = if summary.len() > 0 {
        summary
    } else {
        content
    };
    join_sections(join_sections(title, description), hashtag_line(tag_values(tags, "t"@)))
}

proof fn lemma_hashtag_line_nonempty(tags: Seq<Seq<char>>)
    ensures
        tags.len() > 0 <==> hashtag_line(tags).len() > 0,
    decreases tags.len(),
{
    if tags.len() > 1 {
        lemma_hashtag_line_nonempty(tags.drop_last());
    }
}

/// The untruncated post text keeps every present section in order, title,
/// description, hashtag line, with `"\n\n"` between neighbours; in particular
/// the description stands in it whether or not there is a title. Here the
/// title is the `title` tag's value (none when absent), the description the
/// non-empty `summary` tag's value or else the content, and the hashtag line
/// is present exactly when the event has `t` tags.
pub proof fn post_text_keeps_each_section(
    tags: Seq<Seq<Seq<char>>>,
    content: Seq<char>,
    title: Seq<char>,
    description: Seq<char>,
)
    requires
        title == (match tag_value(tags, "title"@) {
            Some(t) => t,
            None => Seq::<char>::empty(),
        }),
        description == (match tag_value(tags, "summary"@) {
            Some(t) => if t.len() > 0 {
                t
            } else {
                content
            },
            None => content,
        }),
    ensures
        ({
            let text = full_post_text(tags, content);
            let hashtags = hashtag_line(tag_values(tags, "t"@));
            let has_tags = tag_values(tags, "t"@).len() > 0;
            &&& title.len() == 0 && description.len() > 0 && !has_tags ==> text == description
            &&& title.len() == 0 && description.len() > 0 && has_tags ==> text == description + seq!['\n', '\n']
                + hashtags
            &&& title.len() > 0 && description.len() > 0 && !has_tags ==> text == title + seq!['\n', '\n']
                + description
            &&& title.len() > 0 && description.len() > 0 && has_tags ==> text == title + seq!['\n', '\n']
                + description + seq!['\n', '\n'] + hashtags
            &&& title.len() > 0 && description.len() == 0 && !has_tags ==> text == title
            &&& title.len() > 0 && description.len() == 0 && has_tags ==> text == title + seq!['\n', '\n']
                + hashtags
            &&& title.len() == 0 && description.len() == 0 ==> text == hashtags
            &&& has_tags <==> hashtags.len() > 0
        }),
{
    lemma_hashtag_line_nonempty(tag_values(tags, "t"@));
}

/// The post text of an event: its full text cut to 300 grapheme clusters.
pub open spec fn post_text(event: NostrEvent) -> Seq<char> {
    truncated_text(full_post_text(event.tags_view(), event.content@), MAX_POST_GRAPHEMES as nat)
}

/// The `#tag #tag ...` line for the event's `t` tags.
fn build_hashtag_line(tags: &Vec<String>) -> (res: String)
    ensures
        res@ == hashtag_line(strings_view(tags@)),
{
    let ghost tv = strings_view(tags@);
    let mut res = String::new();
    let mut i: usize = 0;
    while i < tags.len()
        invariant
            i <= tags@.len(),
            tv == strings_view(tags@),
            res@ == hashtag_line(tv.take(i as int)),
        decreases tags.len() - i,
    {
        let ghost before = res@;
        if i > 0 {
            push_char(&mut res, ' ');
        }
        push_char(&mut res, '#');
        push_all(&mut res, tags[i].as_str());
        proof {
            let t = tv.take(i + 1);
            assert(t.drop_last() =~= tv.take(i as int));
            assert(t.last() == tags@[i as int]@);
            if i == 0 {
                assert(res@ =~= seq!['#'] + t[0]);
            } else {
                assert(res@ =~= before + seq![' ', '#'] + t.last());
            }
        }
        i += 1;
    }
    assert(tv.take(i as int) =~= tv);
    res
}

/// `join_sections` on strings.
fn join_two(a: String, b: String) -> (res: String)
    ensures
        res@ == join_sections(a@, b@),
{
    if !a.as_str().is_empty() && !b.as_str().is_empty() {
        let mut r = a;
        push_char(&mut r, '\n');
        push_char(&mut r, '\n');
        push_all(&mut r, b.as_str());
        assert(r@ =~= a@ + paragraph_break() + b@);
        r
    } else if !a.as_str().is_empty() {
        a
    } else {
        b
    }
}

/// Build ATProto post text and facets from a NIP-71 Nostr event.
///
/// Returns `(text, facets)` where `text` is at most 300 grapheme clusters and
/// `facets` carry UTF-8 byte offsets for each hashtag.
pub fn build_post_text(event: &NostrEvent) -> (res: (String, Vec<Facet>))
    ensures
        res.0@ == post_text(*event),
        hashtag_facets_of(res.1@, res.0@),
        full_post_text(event.tags_view(), event.content@).len() <= MAX_POST_GRAPHEMES ==> res.0@ == full_post_text(
            event.tags_view(),
            event.content@,
        ),
        res.0@ == full_post_text(event.tags_view(), event.content@).take(res.0@.len() as int),
        extended_grapheme_clusters(full_post_text(event.tags_view(), event.content@)).flatten() == full_post_text(
            event.tags_view(),
            event.content@,
        ),
        forall|i: int|
            0 <= i < extended_grapheme_clusters(full_post_text(event.tags_view(), event.content@)).len() ==> (
            #[trigger] extended_grapheme_clusters(full_post_text(event.tags_view(), event.content@))[i]).len() > 0,
{
    let title = match get_tag(event, "title") {
        Some(t) => t,
        None => String::new(),
    };
    let summary = match get_tag(event, "summary") {
        Some(t) => t,
        None => String::new(),
    };
    let description = if !summary.as_str().is_empty() {
        summary
    } else {
        event.content.clone()
    };
    let tags = get_tags(event, "t");
    let hashtags = build_hashtag_line(&tags);
    let candidate = join_two(title, description);
    let full_text = join_two(candidate, hashtags);
    let text = truncate_graphemes(full_text.as_str(), MAX_POST_GRAPHEMES);
    let facets = compute_hashtag_facets(text.as_str());
    (text, facets)
}

} // verus!
