//! Nostr events, ATProto blob references, and tag lookups on events.

use vstd::prelude::*;
use crate::chars::{char_vec, starts_with, str_equal, string_from_range};

verus! {

broadcast use vstd::seq_lib::group_seq_properties;

/// A signed Nostr event (NIP-01).
#[derive(Debug, Clone, PartialEq, Eq)]
pub struct NostrEvent {
    pub id: String,
    pub pubkey: String,
    pub created_at: i64,
    pub kind: u64,
    pub tags: Vec<Vec<String>>,
    pub content: String,
    pub sig: String,
}

/// An ATProto blob reference: content id, MIME type and size in bytes.
#[derive(Debug, Clone, PartialEq, Eq)]
pub struct BlobRef {
    pub cid: String,
    pub mime_type: String,
    pub size: u64,
}

impl BlobRef {
    pub fn new(cid: String, mime_type: String, size: u64) -> (r: BlobRef)
        ensures
            r.cid@ == cid@,
            r.mime_type@ == mime_type@,
            r.size == size,
    {
        BlobRef { cid, mime_type, size }
    }

    /// The blob's content id.
    pub fn cid(&self) -> (c: &str)
        ensures
            c@ == self.cid@,
    {
        self.cid.as_str()
    }

    pub fn clone_ref(&self) -> (r: BlobRef)
        ensures
            r.cid@ == self.cid@,
            r.mime_type@ == self.mime_type@,
            r.size == self.size,
    {
        BlobRef { cid: self.cid.clone(), mime_type: self.mime_type.clone(), size: self.size }
    }
}

impl NostrEvent {
    /// The event's tags as character sequences.
    pub open spec fn tags_view(&self) -> Seq<Seq<Seq<char>>> {
        self.tags.deep_view()
    }
}

/// A tag `[name, value, ...]` named `name` that carries a value.
pub open spec fn tag_matches(t: Seq<Seq<char>>, name: Seq<char>) -> bool {
    t.len() >= 2 && t[0] == name
}

/// The values (second elements) of all tags named `name`, in tag order.
pub open spec fn tag_values(tags: Seq<Seq<Seq<char>>>, name: Seq<char>) -> Seq<Seq<char>>
    decreases tags.len(),
{
    if tags.len() == 0 {
        Seq::empty()
    } else {
        let r = tag_values(tags.drop_last(), name);
        if tag_matches(tags.last(), name) {
            r.push(tags.last()[1])
        } else {
            r
        }
    }
}

/// The value of the first tag named `name`, if any.
pub open spec fn tag_value(tags: Seq<Seq<Seq<char>>>, name: Seq<char>) -> Option<Seq<char>> {
    if tag_values(tags, name).len() > 0 {
        Some(tag_values(tags, name)[0])
    } else {
        None
    }
}

/// The value that an `imeta` entry gives for `field`: the text after `"{field} "`.
pub open spec fn imeta_entry_value(entry: Seq<char>, field: Seq<char>) -> Option<Seq<char>> {
    if entry.len() > field.len() && entry.take(field.len() as int) == field && entry[field.len() as int]
        == ' ' {
        Some(entry.skip(field.len() + 1 as int))
    } else {
        None
    }
}

/// The values that the entries `entries` give for `field`, in order.
pub open spec fn entry_values(entries: Seq<Seq<char>>, field: Seq<char>) -> Seq<Seq<char>>
    decreases entries.len(),
{
    if entries.len() == 0 {
        Seq::empty()
    } else {
        let r = entry_values(entries.drop_last(), field);
        match imeta_entry_value(entries.last(), field) {
            Some(v) => r.push(v),
            None => r,
        }
    }
}

/// Whether a tag is an `imeta` tag.
pub open spec fn is_imeta(t: Seq<Seq<char>>) -> bool {
    t.len() >= 1 && t[0] == "imeta"@
}

/// The values given for `field` by all `imeta` tags, in tag and entry order.
pub open spec fn imeta_values(tags: Seq<Seq<Seq<char>>>, field: Seq<char>) -> Seq<Seq<char>>
    decreases tags.len(),
{
    if tags.len() == 0 {
        Seq::empty()
    } else {
        let r = imeta_values(tags.drop_last(), field);
        if is_imeta(tags.last()) {
            r + entry_values(tags.last().drop_first(), field)
        } else {
            r
        }
    }
}

/// The first value given for `field` by an `imeta` tag, if any.
pub open spec fn imeta_value(tags: Seq<Seq<Seq<char>>>, field: Seq<char>) -> Option<Seq<char>> {
    if imeta_values(tags, field).len() > 0 {
        Some(imeta_values(tags, field)[0])
    } else {
        None
    }
}

/// Views of a vector of strings.
pub open spec fn strings_view(v: Seq<String>) -> Seq<Seq<char>> {
    Seq::new(v.len(), |i: int| v[i]@)
}

/// The values of all tags named `name`, in tag order.
pub fn get_tags(event: &NostrEvent, name: &str) -> (res: Vec<String>)
    ensures
        strings_view(res@) == tag_values(event.tags_view(), name@),
{
    let mut res: Vec<String> = Vec::new();
    let mut i: usize = 0;
    let ghost tags = event.tags_view();
    while i < event.tags.len()
        invariant
            i <= event.tags@.len(),
            tags == event.tags_view(),
            strings_view(res@) == tag_values(tags.take(i as int), name@),
        decreases event.tags.len() - i,
    {
        let t = &event.tags[i];
        assert(tags.take(i + 1).drop_last() =~= tags.take(i as int));
        assert(tags[i as int] == t.deep_view());
        if t.len() >= 2 && str_equal(t[0].as_str(), name) {
            res.push(t[1].clone());
            assert(strings_view(res@) =~= tag_values(tags.take(i as int), name@).push(t@[1]@));
        }
        i += 1;
    }
    assert(tags.take(i as int) =~= tags);
    res
}

/// The values for `field` of one tag's entries after its name.
fn entry_values_of(t: &Vec<String>, field: &str) -> (res: Vec<String>)
    requires
        t@.len() >= 1,
    ensures
        strings_view(res@) == entry_values(t.deep_view().drop_first(), field@),
{
    let ghost entries = t.deep_view().drop_first();
    let mut res: Vec<String> = Vec::new();
    let fl = char_vec(field).len();
    let mut j: usize = 1;
    while j < t.len()
        invariant
            1 <= j <= t@.len(),
            entries == t.deep_view().drop_first(),
            fl == field@.len(),
            strings_view(res@) == entry_values(entries.take(j - 1), field@),
        decreases t.len() - j,
    {
        assert(entries.take(j as int).drop_last() =~= entries.take(j - 1));
        assert(entries[j - 1] == t@[j as int]@);
        let e = char_vec(t[j].as_str());
        if e.len() > fl && starts_with(t[j].as_str(), field) && e[fl] == ' ' {
            let v = string_from_range(&e, fl + 1, e.len());
            res.push(v);
            assert(e@.subrange(fl + 1, e@.len() as int) =~= e@.skip(fl + 1));
            assert(strings_view(res@) =~= entry_values(entries.take(j - 1), field@).push(
                e@.skip(fl + 1),
            ));
        }
        j += 1;
    }
    assert(entries.take(j - 1) =~= entries);
    res
}

/// The values given for `field` by all `imeta` tags, in order.
pub fn get_imeta_values(event: &NostrEvent, field: &str) -> (res: Vec<String>)
    ensures
        strings_view(res@) == imeta_values(event.tags_view(), field@),
{
    let mut res: Vec<String> = Vec::new();
    let mut i: usize = 0;
    let ghost tags = event.tags_view();
    while i < event.tags.len()
        invariant
            i <= event.tags@.len(),
            tags == event.tags_view(),
            strings_view(res@) == imeta_values(tags.take(i as int), field@),
        decreases event.tags.len() - i,
    {
        let t = &event.tags[i];
        assert(tags.take(i + 1).drop_last() =~= tags.take(i as int));
        assert(tags[i as int] == t.deep_view());
        if t.len() >= 1 && str_equal(t[0].as_str(), "imeta") {
            let mut vals = entry_values_of(t, field);
            let ghost before = strings_view(res@);
            res.append(&mut vals);
            assert(strings_view(res@) =~= before + entry_values(t.deep_view().drop_first(), field@));
        }
        i += 1;
    }
    assert(tags.take(i as int) =~= tags);
    res
}

/// The first element of a vector of strings, if any.
fn first_string(v: Vec<String>) -> (res: Option<String>)
    ensures
        res is Some <==> v@.len() > 0,
        res matches Some(s) ==> s@ == strings_view(v@)[0],
{
    if v.len() > 0 {
        Some(v[0].clone())
    } else {
        None
    }
}

/// The value of the first tag named `name` (`event.tags.find(..)`).
pub fn get_tag(event: &NostrEvent, name: &str) -> (res: Option<String>)
    ensures
        res is Some <==> tag_value(event.tags_view(), name@) is Some,
        res matches Some(s) ==> tag_value(event.tags_view(), name@) == Some(s@),
{
    first_string(get_tags(event, name))
}

/// The value of the first `imeta` entry for `field`.
pub fn get_imeta_field(event: &NostrEvent, field: &str) -> (res: Option<String>)
    ensures
        res is Some <==> imeta_value(event.tags_view(), field@) is Some,
        res matches Some(s) ==> imeta_value(event.tags_view(), field@) == Some(s@),
{
    first_string(get_imeta_values(event, field))
}

/// The video URL of an event: its first `url` tag, else the first `imeta` `url` entry.
pub open spec fn video_url(tags: Seq<Seq<Seq<char>>>) -> Option<Seq<char>> {
    match tag_value(tags, "url"@) {
        Some(u) => Some(u),
        None => imeta_value(tags, "url"@),
    }
}

/// Extract the video URL from the event's `url` tag or `imeta` tag.
pub fn get_video_url(event: &NostrEvent) -> (res: Option<String>)
    ensures
        res is Some <==> video_url(event.tags_view()) is Some,
        res matches Some(s) ==> video_url(event.tags_view()) == Some(s@),
{
    match get_tag(event, "url") {
        Some(u) => Some(u),
        None => get_imeta_field(event, "url"),
    }
}

/// The target of a kind-5 deletion: the first `e` tag's value.
pub fn get_deleted_event_id(event: &NostrEvent) -> (res: Option<String>)
    ensures
        res is Some <==> tag_value(event.tags_view(), "e"@) is Some,
        res matches Some(s) ==> tag_value(event.tags_view(), "e"@) == Some(s@),
{
    get_tag(event, "e")
}

/// An entry `"url X"` of an `imeta` tag.
pub open spec fn is_url_entry(entry: Seq<char>) -> bool {
    entry.len() >= 4 && entry.take(4) == "url "@
}

/// No tag of `tags` is a `url` tag carrying a value.
pub open spec fn has_no_url_tag(tags: Seq<Seq<Seq<char>>>) -> bool {
    forall|i: int| 0 <= i < tags.len() ==> !(#[trigger] tags[i].len() >= 2 && tags[i][0] == "url"@)
}

/// Entry `j` of tag `k` is the first `"url X"` entry of an `imeta` tag, in tag
/// and entry order.
pub open spec fn first_url_entry_at(tags: Seq<Seq<Seq<char>>>, k: int, j: int) -> bool {
    &&& 0 <= k < tags.len()
    &&& tags[k].len() >= 1 && tags[k][0] == "imeta"@
    &&& 1 <= j < tags[k].len()
    &&& is_url_entry(tags[k][j])
    &&& forall|i: int, m: int|
        0 <= i < k && tags[i].len() >= 1 && tags[i][0] == "imeta"@ && 1 <= m < tags[i].len() ==> !is_url_entry(
            #[trigger] tags[i][m],
        )
    &&& forall|m: int| 1 <= m < j ==> !is_url_entry(#[trigger] tags[k][m])
}

proof fn lemma_url_entry_value(entry: Seq<char>)
    ensures
        is_url_entry(entry) <==> imeta_entry_value(entry, "url"@) is Some,
        is_url_entry(entry) ==> imeta_entry_value(entry, "url"@) == Some(entry.skip(4)),
{
    reveal_strlit("url ");
    reveal_strlit("url");
    assert("url"@.len() == 3);
    assert("url "@.len() == 4 && "url "@[3] == ' ');
    if is_url_entry(entry) {
        assert(entry.take(3) =~= "url"@) by {
            assert forall|i: int| 0 <= i < 3 implies entry.take(3)[i] == "url"@[i] by {
                assert(entry.take(4)[i] == "url "@[i]);
            }
        }
        assert(entry[3] == entry.take(4)[3]);
        assert(entry[3] == ' ');
    }
    if imeta_entry_value(entry, "url"@) is Some {
        assert(entry.take(4) =~= "url "@) by {
            assert forall|i: int| 0 <= i < 4 implies entry.take(4)[i] == "url "@[i] by {
                if i < 3 {
                    assert(entry.take(3)[i] == "url"@[i]);
                }
            }
        }
    }
}

proof fn lemma_no_tag_values(tags: Seq<Seq<Seq<char>>>, name: Seq<char>)
    requires
        forall|i: int| 0 <= i < tags.len() ==> !tag_matches(#[trigger] tags[i], name),
    ensures
        tag_values(tags, name).len() == 0,
    decreases tags.len(),
{
    if tags.len() > 0 {
        lemma_no_tag_values(tags.drop_last(), name);
    }
}

proof fn lemma_entry_values_append(a: Seq<Seq<char>>, b: Seq<Seq<char>>, field: Seq<char>)
    ensures
        entry_values(a + b, field) == entry_values(a, field) + entry_values(b, field),
    decreases b.len(),
{
    if b.len() == 0 {
        assert(a + b =~= a);
        assert(entry_values(a, field) + entry_values(b, field) =~= entry_values(a, field));
    } else {
        assert((a + b).drop_last() =~= a + b.drop_last());
        lemma_entry_values_append(a, b.drop_last(), field);
        match imeta_entry_value(b.last(), field) {
            Some(v) => {
                assert(entry_values(a, field) + entry_values(b.drop_last(), field).push(v) =~= (entry_values(a, field)
                    + entry_values(b.drop_last(), field)).push(v));
            },
            None => {},
        }
    }
}

proof fn lemma_imeta_values_append(a: Seq<Seq<Seq<char>>>, b: Seq<Seq<Seq<char>>>, field: Seq<char>)
    ensures
        imeta_values(a + b, field) == imeta_values(a, field) + imeta_values(b, field),
    decreases b.len(),
{
    if b.len() == 0 {
        assert(a + b =~= a);
        assert(imeta_values(a, field) + imeta_values(b, field) =~= imeta_values(a, field));
    } else {
        assert((a + b).drop_last() =~= a + b.drop_last());
        lemma_imeta_values_append(a, b.drop_last(), field);
        if is_imeta(b.last()) {
            assert(imeta_values(a, field) + (imeta_values(b.drop_last(), field) + entry_values(b.last().drop_first(), field))
                =~= (imeta_values(a, field) + imeta_values(b.drop_last(), field)) + entry_values(b.last().drop_first(), field));
        }
    }
}

proof fn lemma_no_url_entries(entries: Seq<Seq<char>>)
    requires
        forall|m: int| 0 <= m < entries.len() ==> !is_url_entry(#[trigger] entries[m]),
    ensures
        entry_values(entries, "url"@).len() == 0,
    decreases entries.len(),
{
    if entries.len() > 0 {
        lemma_no_url_entries(entries.drop_last());
        lemma_url_entry_value(entries.last());
    }
}

proof fn lemma_no_imeta_urls(tags: Seq<Seq<Seq<char>>>)
    requires
        forall|i: int, m: int|
            0 <= i < tags.len() && is_imeta(tags[i]) && 1 <= m < tags[i].len() ==> !is_url_entry(
                #[trigger] tags[i][m],
            ),
    ensures
        imeta_values(tags, "url"@).len() == 0,
    decreases tags.len(),
{
    if tags.len() > 0 {
        let t = tags.last();
        assert forall|i: int, m: int|
            0 <= i < tags.drop_last().len() && is_imeta(tags.drop_last()[i]) && 1 <= m < tags.drop_last()[i].len()
                implies !is_url_entry(#[trigger] tags.drop_last()[i][m]) by {
            assert(tags.drop_last()[i] == tags[i]);
        }
        lemma_no_imeta_urls(tags.drop_last());
        if is_imeta(t) {
            assert forall|m: int| 0 <= m < t.drop_first().len() implies !is_url_entry(#[trigger] t.drop_first()[m]) by {
                assert(t.drop_first()[m] == tags[tags.len() - 1][m + 1]);
            }
            lemma_no_url_entries(t.drop_first());
        }
    }
}

/// Without a `url` tag, the video URL comes from the first `imeta` entry
/// `"url X"`: when entry `j` of tag `k` is the first such entry, in tag and
/// entry order, the event's video URL is its `X`.
pub proof fn first_imeta_url_is_video_url(tags: Seq<Seq<Seq<char>>>, k: int, j: int)
    requires
        has_no_url_tag(tags),
        first_url_entry_at(tags, k, j),
    ensures
        video_url(tags) == Some(tags[k][j].skip(4)),
{
    assert forall|i: int| 0 <= i < tags.len() implies !tag_matches(#[trigger] tags[i], "url"@) by {
        assert(!(tags[i].len() >= 2 && tags[i][0] == "url"@));
    }
    lemma_no_tag_values(tags, "url"@);
    let before = tags.take(k);
    let rest = tags.skip(k + 1);
    let t = tags[k];
    assert(tags =~= before + seq![t] + rest);
    lemma_imeta_values_append(before + seq![t], rest, "url"@);
    lemma_imeta_values_append(before, seq![t], "url"@);
    assert forall|i: int, m: int|
        0 <= i < before.len() && is_imeta(before[i]) && 1 <= m < before[i].len() implies !is_url_entry(
            #[trigger] before[i][m],
        ) by {
        assert(before[i] == tags[i]);
    }
    lemma_no_imeta_urls(before);
    assert(seq![t].drop_last() =~= Seq::<Seq<Seq<char>>>::empty());
    assert(imeta_values(seq![t], "url"@) == entry_values(t.drop_first(), "url"@));
    let d = t.drop_first();
    assert(d =~= d.take(j - 1) + seq![d[j - 1]] + d.skip(j));
    lemma_entry_values_append(d.take(j - 1) + seq![d[j - 1]], d.skip(j), "url"@);
    lemma_entry_values_append(d.take(j - 1), seq![d[j - 1]], "url"@);
    assert forall|m: int| 0 <= m < d.take(j - 1).len() implies !is_url_entry(#[trigger] d.take(j - 1)[m]) by {
        assert(d.take(j - 1)[m] == t[m + 1]);
    }
    lemma_no_url_entries(d.take(j - 1));
    lemma_url_entry_value(d[j - 1]);
    assert(seq![d[j - 1]].drop_last() =~= Seq::<Seq<char>>::empty());
    assert(entry_values(seq![d[j - 1]], "url"@) =~= seq![d[j - 1].skip(4)]);
    assert(imeta_values(tags, "url"@)[0] == d[j - 1].skip(4));
}

} // verus!
