//! The AppView indexer: reading repos, profiles and posts from a PDS, and
//! the writes that mirror a repo into the AppView store.
//!
//! Times are Unix microseconds. HTTP and the database are the caller's; the
//! in-memory store here applies the same writes directly.

use vstd::prelude::*;
use crate::chars::{char_vec, str_equal, string_from_range};
use crate::json::{as_i64, as_string, get_member, i64_of, json_compact_text, member, string_of, write_json_text, JsonValue};

verus! {

broadcast use vstd::seq_lib::group_seq_properties;

/// Configuration of the indexer is in `config`; the service-state keys it writes:
pub const LAST_BACKFILL_KEY: &'static str = "appview_last_backfill";
pub const LAST_RELAY_DID_KEY: &'static str = "appview_last_relay_did";

#[derive(Debug, Clone, PartialEq, Eq)]
pub struct IndexedRepo {
    pub did: String,
    pub handle: Option<String>,
    pub head: Option<String>,
    pub rev: Option<String>,
    pub active: bool,
    pub last_backfilled_at: Option<i64>,
    pub last_seen_seq: Option<i64>,
}

#[derive(Debug, Clone, PartialEq, Eq)]
pub struct IndexedProfile {
    pub did: String,
    pub handle: Option<String>,
    pub display_name: Option<String>,
    pub description: Option<String>,
    pub website: Option<String>,
    pub avatar_cid: Option<String>,
    pub banner_cid: Option<String>,
    pub created_at: Option<i64>,
    pub raw_json: Option<String>,
    pub indexed_at: i64,
}

#[derive(Debug, Clone, PartialEq, Eq)]
pub struct IndexedPost {
    pub uri: String,
    pub did: String,
    pub rkey: String,
    pub record_cid: Option<String>,
    pub created_at: i64,
    pub text: String,
    pub langs_json: Option<String>,
    pub embed_blob_cid: Option<String>,
    pub embed_alt: Option<String>,
    pub aspect_ratio_width: Option<i32>,
    pub aspect_ratio_height: Option<i32>,
    pub raw_json: Option<String>,
    pub search_text: String,
    pub indexed_at: i64,
    pub deleted_at: Option<i64>,
}

/// A blob whose playable media the AppView must prepare.
#[derive(Debug, Clone, PartialEq, Eq)]
pub struct MediaJob {
    pub did: String,
    pub blob_cid: String,
}

/// A repo as the PDS reports it, with its profile and posts.
pub struct RepoSnapshot {
    pub repo: IndexedRepo,
    pub profile: Option<IndexedProfile>,
    pub posts: Vec<IndexedPost>,
}

/// A record as `listRecords` returns it.
pub struct RecordRow {
    pub uri: String,
    pub cid: Option<String>,
    pub value: JsonValue,
}

/// A repo entry as `listRepos` returns it.
pub struct ListRepoEntry {
    pub did: String,
    pub handle: Option<String>,
    pub head: Option<String>,
    pub rev: Option<String>,
    pub active: Option<bool>,
}

/// A stream of repos that changed on the relay.
pub trait RelayStream {
    /// The DID of the next changed repo, `None` when there is none.
    fn next_changed_repo(&mut self) -> (r: Result<Option<String>, String>);
}

/// The indexer's relay: it never reports a changed repo.
pub struct NoopRelayStream;

impl RelayStream for NoopRelayStream {
    fn next_changed_repo(&mut self) -> (r: Result<Option<String>, String>)
        ensures
            r == Ok::<Option<String>, String>(None),
    {
        Ok(None)
    }
}

/// The indexer's database.
pub struct DbStore {
    pub database_url: String,
}

impl DbStore {
    pub fn new(database_url: String) -> (s: DbStore)
        ensures
            s.database_url == database_url,
    {
        DbStore { database_url }
    }
}

// ---------------------------------------------------------------------------
// Reading PDS responses
// ---------------------------------------------------------------------------

/// The text after the last `/` of a URI (the whole text when it has none).
pub open spec fn last_segment(uri: Seq<char>) -> Seq<char> {
    if exists|i: int| 0 <= i < uri.len() && uri[i] == '/' {
        let i = choose|i: int| 0 <= i < uri.len() && uri[i] == '/' && forall|j: int| i < j < uri.len() ==> uri[j] != '/';
        uri.skip(i + 1)
    } else {
        uri
    }
}

/// The record key of an `at://` URI: its last path segment.
pub fn rkey_from_uri(uri: &str) -> (rkey: String)
    ensures
        rkey@ == last_segment(uri@),
{
    let v = char_vec(uri);
    let mut i = v.len();
    while i > 0 && v[i - 1] != '/'
        invariant
            i <= v@.len(),
            v@ == uri@,
            forall|j: int| i <= j < v@.len() ==> v@[j] != '/',
        decreases i,
    {
        i -= 1;
    }
    proof {
        if i > 0 {
            let k = choose|k: int| 0 <= k < uri@.len() && uri@[k] == '/' && forall|j: int| k < j < uri@.len() ==> uri@[j] != '/';
            assert(k == i - 1) by {
                if k < i - 1 {
                    assert(uri@[i - 1] == '/');
                }
                if k > i - 1 {
                    assert(uri@[k] != '/');
                }
            }
            assert(uri@.skip(i as int) =~= v@.subrange(i as int, v@.len() as int));
        } else {
            assert(!exists|k: int| 0 <= k < uri@.len() && uri@[k] == '/');
            assert(uri@ =~= v@.subrange(0, v@.len() as int));
        }
    }
    string_from_range(&v, i, v.len())
}

/// The CID of a blob value: its `ref.$link` text.
pub open spec fn blob_cid_of(v: Option<JsonValue>) -> Option<Seq<char>> {
    match v {
        Some(b) => match member(b, "ref"@) {
            Some(r) => string_of(member(r, "$link"@)),
            None => None,
        },
        None => None,
    }
}

pub fn extract_blob_cid(v: Option<&JsonValue>) -> (cid: Option<String>)
    ensures
        crate::profile_sync::opt_view(cid) == blob_cid_of(match v {
            Some(x) => Some(*x),
            None => None,
        }),
{
    match v {
        Some(b) => match get_member(b, "ref") {
            Some(r) => match get_member(r, "$link") {
                Some(l) => as_string(l),
                None => None,
            },
            None => None,
        },
        None => None,
    }
}

/// The instant that RFC 3339 text names, in Unix microseconds, if it parses.
pub uninterp spec fn rfc3339_micros(text: Seq<char>) -> Option<i64>;

/// `chrono::DateTime::parse_from_rfc3339(..)` then `timestamp_micros()`.
#[verifier::external_body]
fn parse_rfc3339(text: &str) -> (res: Option<i64>)
    ensures
        res == rfc3339_micros(text@),
{
    chrono::DateTime::parse_from_rfc3339(text).ok().map(|d| d.timestamp_micros())
}

fn string_member(v: &JsonValue, key: &str) -> (res: Option<String>)
    ensures
        crate::profile_sync::opt_view(res) == string_of(member(*v, key@)),
{
    match get_member(v, key) {
        Some(x) => as_string(x),
        None => None,
    }
}

/// The profile of a repo from its profile record.
pub open spec fn indexed_profile_of(
    p: IndexedProfile,
    repo: IndexedRepo,
    record: RecordRow,
    indexed_at: i64,
) -> bool {
    let v = record.value;
    &&& p.did == repo.did && p.handle == repo.handle
    &&& crate::profile_sync::opt_view(p.display_name) == string_of(member(v, "displayName"@))
    &&& crate::profile_sync::opt_view(p.description) == string_of(member(v, "description"@))
    &&& crate::profile_sync::opt_view(p.website) == string_of(member(v, "website"@))
    &&& crate::profile_sync::opt_view(p.avatar_cid) == blob_cid_of(member(v, "avatar"@))
    &&& crate::profile_sync::opt_view(p.banner_cid) == blob_cid_of(member(v, "banner"@))
    &&& p.created_at == match string_of(member(v, "createdAt"@)) {
        Some(t) => rfc3339_micros(t),
        None => None,
    }
    &&& crate::profile_sync::opt_view(p.raw_json) == Some(json_compact_text(v@))
    &&& p.indexed_at == indexed_at
}

/// Read a profile record; its raw JSON is the record value's JSON text.
pub fn parse_profile(repo: &IndexedRepo, record: &RecordRow, indexed_at: i64) -> (p: IndexedProfile)
    ensures
        indexed_profile_of(p, *repo, *record, indexed_at),
{
    let v = &record.value;
    let created_at = match string_member(v, "createdAt") {
        Some(t) => parse_rfc3339(t.as_str()),
        None => None,
    };
    IndexedProfile {
        did: repo.did.clone(),
        handle: repo.handle.clone(),
        display_name: string_member(v, "displayName"),
        description: string_member(v, "description"),
        website: string_member(v, "website"),
        avatar_cid: extract_blob_cid(get_member(v, "avatar")),
        banner_cid: extract_blob_cid(get_member(v, "banner")),
        created_at,
        raw_json: Some(write_json_text(v)),
        indexed_at,
    }
}

/// An aspect-ratio member as `i32` (an `i64` value taken modulo 2^32).
pub open spec fn dimension_of(v: Option<JsonValue>) -> Option<i32> {
    match i64_of(v) {
        Some(x) => Some(x as i32),
        None => None,
    }
}

/// The post of a repo from its post record, or why it cannot be read:
/// `createdAt` must be RFC 3339 text.
pub open spec fn indexed_post_of(
    res: Result<IndexedPost, String>,
    repo: IndexedRepo,
    record: RecordRow,
    indexed_at: i64,
) -> bool {
    let v = record.value;
    let embed = member(v, "embed"@);
    let ratio = match embed {
        Some(e) => member(e, "aspectRatio"@),
        None => None,
    };
    match string_of(member(v, "createdAt"@)) {
        None => res matches Err(m) && m@ == "post record is missing createdAt"@,
        Some(t) => match rfc3339_micros(t) {
            None => res matches Err(m) && m@ == "post createdAt is not valid RFC3339"@,
            Some(created_at) => res matches Ok(p) && {
                let text = match string_of(member(v, "text"@)) {
                    Some(s) => s,
                    None => Seq::<char>::empty(),
                };
                &&& p.uri == record.uri && p.did == repo.did && p.rkey@ == last_segment(record.uri@)
                &&& p.record_cid == record.cid
                &&& p.created_at == created_at
                &&& p.text@ == text && p.search_text@ == text
                &&& crate::profile_sync::opt_view(p.raw_json) == Some(json_compact_text(v@))
                &&& crate::profile_sync::opt_view(p.langs_json) == match member(v, "langs"@) {
                    Some(l) => Some(json_compact_text(l@)),
                    None => None,
                }
                &&& crate::profile_sync::opt_view(p.embed_blob_cid) == match embed {
                    Some(e) => blob_cid_of(member(e, "video"@)),
                    None => None,
                }
                &&& crate::profile_sync::opt_view(p.embed_alt) == match embed {
                    Some(e) => string_of(member(e, "alt"@)),
                    None => None,
                }
                &&& p.aspect_ratio_width == match ratio {
                    Some(r) => dimension_of(member(r, "width"@)),
                    None => None,
                }
                &&& p.aspect_ratio_height == match ratio {
                    Some(r) => dimension_of(member(r, "height"@)),
                    None => None,
                }
                &&& p.indexed_at == indexed_at && p.deleted_at is None
            },
        },
    }
}

fn dimension(r: &JsonValue, key: &str) -> (d: Option<i32>)
    ensures
        d == dimension_of(member(*r, key@)),
{
    match get_member(r, key) {
        Some(x) => match as_i64(x) {
            Some(n) => Some(n as i32),
            None => None,
        },
        None => None,
    }
}

/// Read a post record; its raw JSON is the record value's JSON text and its
/// languages the JSON text of the `langs` member, when there is one.
pub fn parse_post(repo: &IndexedRepo, record: &RecordRow, indexed_at: i64) -> (res: Result<IndexedPost, String>)
    ensures
        indexed_post_of(res, *repo, *record, indexed_at),
{
    let v = &record.value;
    let embed = get_member(v, "embed");
    let created_text = match string_member(v, "createdAt") {
        Some(t) => t,
        None => return Err("post record is missing createdAt".to_string()),
    };
    let created_at = match parse_rfc3339(created_text.as_str()) {
        Some(t) => t,
        None => return Err("post createdAt is not valid RFC3339".to_string()),
    };
    let text = match string_member(v, "text") {
        Some(s) => s,
        None => String::new(),
    };
    let embed_blob_cid = match embed {
        Some(e) => extract_blob_cid(get_member(e, "video")),
        None => None,
    };
    let embed_alt = match embed {
        Some(e) => string_member(e, "alt"),
        None => None,
    };
    let ratio = match embed {
        Some(e) => get_member(e, "aspectRatio"),
        None => None,
    };
    let (w, h) = match ratio {
        Some(r) => (dimension(r, "width"), dimension(r, "height")),
        None => (None, None),
    };
    let langs_json = match get_member(v, "langs") {
        Some(l) => Some(write_json_text(l)),
        None => None,
    };
    let raw_json = Some(write_json_text(v));
    Ok(
        IndexedPost {
            uri: record.uri.clone(),
            did: repo.did.clone(),
            rkey: rkey_from_uri(record.uri.as_str()),
            record_cid: record.cid.clone(),
            created_at,
            text: text.clone(),
            langs_json,
            embed_blob_cid,
            embed_alt,
            aspect_ratio_width: w,
            aspect_ratio_height: h,
            raw_json,
            search_text: text,
            indexed_at,
            deleted_at: None,
        },
    )
}

/// A repo entry as the indexer keeps it: active unless it says otherwise,
/// never backfilled, no sequence seen.
pub fn repo_from_entry(entry: ListRepoEntry) -> (r: IndexedRepo)
    ensures
        r.did == entry.did && r.handle == entry.handle && r.head == entry.head && r.rev == entry.rev,
        r.active == match entry.active {
            Some(a) => a,
            None => true,
        },
        r.last_backfilled_at is None && r.last_seen_seq is None,
{
    IndexedRepo {
        did: entry.did,
        handle: entry.handle,
        head: entry.head,
        rev: entry.rev,
        active: match entry.active {
            Some(a) => a,
            None => true,
        },
        last_backfilled_at: None,
        last_seen_seq: None,
    }
}

/// The repo to sync: the listed one with this DID (else a bare active repo),
/// stamped as backfilled now.
pub fn repo_for_sync(repos: Vec<IndexedRepo>, did: &str, indexed_at: i64) -> (r: IndexedRepo)
    ensures
        r.last_backfilled_at == Some(indexed_at),
        r.did@ == did@,
        (exists|i: int| 0 <= i < repos@.len() && (#[trigger] repos@[i]).did@ == did@) ==> exists|i: int|
            0 <= i < repos@.len() && (#[trigger] repos@[i]).did@ == did@ && (forall|j: int| 0 <= j < i ==> repos@[j].did@ != did@)
                && r.handle == repos@[i].handle && r.head == repos@[i].head && r.rev == repos@[i].rev && r.active
                == repos@[i].active && r.last_seen_seq == repos@[i].last_seen_seq,
        !(exists|i: int| 0 <= i < repos@.len() && (#[trigger] repos@[i]).did@ == did@) ==> r.handle is None && r.head is None
            && r.rev is None && r.active && r.last_seen_seq is None,
{
    let mut rest = repos;
    let ghost all = rest@;
    let mut n: usize = 0;
    let total = rest.len();
    while rest.len() > 0
        invariant
            total == all.len(),
            n + rest@.len() == all.len(),
            rest@ == all.skip(n as int),
            forall|j: int| 0 <= j < n ==> all[j].did@ != did@,
            all == repos@,
        decreases rest.len(),
    {
        let entry = rest.remove(0);
        assert(entry == all[n as int]);
        assert(rest@ =~= all.skip(n + 1));
        if str_equal(entry.did.as_str(), did) {
            let mut r = entry;
            r.last_backfilled_at = Some(indexed_at);
            return r;
        }
        n += 1;
    }
    IndexedRepo {
        did: did.to_string(),
        handle: None,
        head: None,
        rev: None,
        active: true,
        last_backfilled_at: None,
        last_seen_seq: None,
    }.with_backfill(indexed_at)
}

impl IndexedRepo {
    fn with_backfill(self, at: i64) -> (r: IndexedRepo)
        ensures
            r.last_backfilled_at == Some(at),
            r.did == self.did && r.handle == self.handle && r.head == self.head && r.rev == self.rev
                && r.active == self.active && r.last_seen_seq == self.last_seen_seq,
    {
        let mut r = self;
        r.last_backfilled_at = Some(at);
        r
    }
}

// ---------------------------------------------------------------------------
// Mirroring a repo into the store
// ---------------------------------------------------------------------------

/// One write to the AppView store.
pub enum StoreWrite {
    UpsertRepo { repo: IndexedRepo },
    UpsertProfile { profile: IndexedProfile },
    UpsertPost { post: IndexedPost },
    QueueMediaJob { job: MediaJob },
    SetServiceState { key: String, value: Option<String> },
}

/// The writes that mirror a snapshot: the repo, its profile if any, then
/// for each post its media job (when it embeds a video blob) before the post.
pub open spec fn post_writes(posts: Seq<IndexedPost>) -> Seq<StoreWrite>
    decreases posts.len(),
{
    if posts.len() == 0 {
        Seq::empty()
    } else {
        let p = posts.last();
        let before = post_writes(posts.drop_last());
        match p.embed_blob_cid {
            Some(c) => before.push(StoreWrite::QueueMediaJob { job: MediaJob { did: p.did, blob_cid: c } }).push(
                StoreWrite::UpsertPost { post: p },
            ),
            None => before.push(StoreWrite::UpsertPost { post: p }),
        }
    }
}

pub open spec fn snapshot_writes_spec(s: RepoSnapshot) -> Seq<StoreWrite> {
    let head = match s.profile {
        Some(p) => seq![StoreWrite::UpsertRepo { repo: s.repo }, StoreWrite::UpsertProfile { profile: p }],
        None => seq![StoreWrite::UpsertRepo { repo: s.repo }],
    };
    head + post_writes(s.posts@)
}

/// The writes that mirror a repo snapshot into the store, in order.
pub fn snapshot_writes(snapshot: RepoSnapshot) -> (w: Vec<StoreWrite>)
    ensures
        w@ == snapshot_writes_spec(snapshot),
{
    let ghost s = snapshot;
    let RepoSnapshot { repo, profile, posts } = snapshot;
    let mut w: Vec<StoreWrite> = Vec::new();
    w.push(StoreWrite::UpsertRepo { repo });
    match profile {
        Some(p) => w.push(StoreWrite::UpsertProfile { profile: p }),
        None => {},
    }
    let ghost head = w@;
    let mut rest = posts;
    let ghost all = rest@;
    let mut n: usize = 0;
    let total = rest.len();
    assert(all.take(0) =~= Seq::<IndexedPost>::empty());
    while rest.len() > 0
        invariant
            total == all.len(),
            n + rest@.len() == all.len(),
            rest@ == all.skip(n as int),
            w@ == head + post_writes(all.take(n as int)),
        decreases rest.len(),
    {
        let p = rest.remove(0);
        assert(p == all[n as int]);
        assert(rest@ =~= all.skip(n + 1));
        assert(all.take(n + 1).drop_last() =~= all.take(n as int));
        match &p.embed_blob_cid {
            Some(c) => {
                let job = MediaJob { did: p.did.clone(), blob_cid: c.clone() };
                w.push(StoreWrite::QueueMediaJob { job });
            },
            None => {},
        }
        w.push(StoreWrite::UpsertPost { post: p });
        n += 1;
        assert(w@ =~= head + post_writes(all.take(n as int)));
    }
    assert(all.take(all.len() as int) =~= all);
    w
}

// ---------------------------------------------------------------------------
// In-memory store
// ---------------------------------------------------------------------------

/// An item stored under a text key.
pub trait Keyed {
    spec fn key_spec(&self) -> Seq<char>;

    fn key(&self) -> (k: &str)
        ensures
            k@ == self.key_spec(),
    ;
}

impl Keyed for IndexedRepo {
    open spec fn key_spec(&self) -> Seq<char> {
        self.did@
    }

    fn key(&self) -> (k: &str) {
        self.did.as_str()
    }
}

impl Keyed for IndexedProfile {
    open spec fn key_spec(&self) -> Seq<char> {
        self.did@
    }

    fn key(&self) -> (k: &str) {
        self.did.as_str()
    }
}

impl Keyed for IndexedPost {
    open spec fn key_spec(&self) -> Seq<char> {
        self.uri@
    }

    fn key(&self) -> (k: &str) {
        self.uri.as_str()
    }
}

/// No two items share a key.
pub open spec fn unique_keys<T: Keyed>(v: Seq<T>) -> bool {
    forall|i: int, j: int| 0 <= i < j < v.len() ==> (#[trigger] v[i]).key_spec() != (#[trigger] v[j]).key_spec()
}

/// Whether an item of `s` has key `k`.
pub open spec fn has_key<T: Keyed>(s: Seq<T>, k: Seq<char>) -> bool {
    exists|i: int| 0 <= i < s.len() && (#[trigger] s[i]).key_spec() == k
}

/// `i` is the first position of `s` whose item has key `k`.
pub open spec fn first_with_key<T: Keyed>(s: Seq<T>, k: Seq<char>, i: int) -> bool {
    &&& 0 <= i < s.len()
    &&& s[i].key_spec() == k
    &&& forall|j: int| 0 <= j < i ==> (#[trigger] s[j]).key_spec() != k
}

/// `new` is `old` with `value` upserted: the first item with its key
/// replaced in place, or, when none has it, `value` appended.
pub open spec fn upserted<T: Keyed>(old: Seq<T>, value: T, new: Seq<T>) -> bool {
    &&& has_key(old, value.key_spec()) ==> exists|i: int|
        first_with_key(old, value.key_spec(), i) && new == old.update(i, value)
    &&& !has_key(old, value.key_spec()) ==> new == old.push(value)
}

/// Insert `value`: the first item with its key is replaced in place, or,
/// when none has it, `value` is appended; every other item keeps its place.
pub fn upsert_by_key<T: Keyed>(storage: &mut Vec<T>, value: T)
    ensures
        upserted(old(storage)@, value, final(storage)@),
        unique_keys(old(storage)@) ==> unique_keys(final(storage)@),
        final(storage)@.contains(value),
        forall|x: T| x.key_spec() != value.key_spec() ==> (#[trigger] final(storage)@.contains(x) <==> old(storage)@.contains(x)),
        unique_keys(old(storage)@) ==> forall|x: T| #[trigger] final(storage)@.contains(x) && x.key_spec() == value.key_spec() ==> x == value,
{
    let ghost k = value.key_spec();
    let mut i: usize = 0;
    while i < storage.len()
        invariant
            i <= storage@.len(),
            storage@ == old(storage)@,
            k == value.key_spec(),
            forall|j: int| 0 <= j < i ==> (#[trigger] storage@[j]).key_spec() != k,
        decreases storage.len() - i,
    {
        if str_equal(storage[i].key(), value.key()) {
            let ghost before = storage@;
            storage.set(i, value);
            proof {
                assert(first_with_key(before, k, i as int));
                assert(storage@ == before.update(i as int, value));
                assert(storage@[i as int] == value);
                if unique_keys(before) {
                    assert forall|a: int, b: int| 0 <= a < b < storage@.len() implies (#[trigger] storage@[a]).key_spec()
                        != (#[trigger] storage@[b]).key_spec() by {
                        if a != i && b != i {
                            assert(storage@[a] == before[a] && storage@[b] == before[b]);
                        } else if a == i {
                            assert(storage@[b] == before[b]);
                            assert(before[a].key_spec() == k);
                            assert(before[a].key_spec() != before[b].key_spec());
                        } else {
                            assert(storage@[a] == before[a]);
                            assert(before[b].key_spec() == k);
                            assert(before[a].key_spec() != before[b].key_spec());
                        }
                    }
                    assert forall|x: T| #[trigger] storage@.contains(x) && x.key_spec() == k implies x == value by {
                        let a = choose|a: int| 0 <= a < storage@.len() && storage@[a] == x;
                        if a != i {
                            assert(before[a] == x);
                            assert(before[i as int].key_spec() == k);
                        }
                    }
                }
                assert forall|x: T| x.key_spec() != k implies (#[trigger] storage@.contains(x) <==> before.contains(x)) by {
                    if storage@.contains(x) {
                        let a = choose|a: int| 0 <= a < storage@.len() && storage@[a] == x;
                        assert(a != i);
                        assert(before[a] == x);
                    }
                    if before.contains(x) {
                        let a = choose|a: int| 0 <= a < before.len() && before[a] == x;
                        assert(a != i);
                        assert(storage@[a] == x);
                    }
                }
            }
            return;
        }
        i += 1;
    }
    let ghost before = storage@;
    storage.push(value);
    proof {
        assert(storage@[before.len() as int] == value);
        assert(!has_key(before, k));
        if unique_keys(before) {
            assert forall|a: int, b: int| 0 <= a < b < storage@.len() implies (#[trigger] storage@[a]).key_spec()
                != (#[trigger] storage@[b]).key_spec() by {
                if b == before.len() {
                    assert(storage@[a] == before[a]);
                } else {
                    assert(storage@[a] == before[a] && storage@[b] == before[b]);
                }
            }
        }
        assert forall|x: T| x.key_spec() != k implies (#[trigger] storage@.contains(x) <==> before.contains(x)) by {
            if storage@.contains(x) {
                let a = choose|a: int| 0 <= a < storage@.len() && storage@[a] == x;
                assert(a != before.len());
                assert(before[a] == x);
            }
            if before.contains(x) {
                let a = choose|a: int| 0 <= a < before.len() && before[a] == x;
                assert(storage@[a] == x);
            }
        }
        assert forall|x: T| #[trigger] storage@.contains(x) && x.key_spec() == k implies x == value by {
            let a = choose|a: int| 0 <= a < storage@.len() && storage@[a] == x;
            if a != before.len() {
                assert(before[a] == x);
            }
        }
    }
}


/// `new` is the service state `old` with `key` set to `value`: the entry
/// with that key replaced in place, or a new entry appended.
pub open spec fn state_set(
    old: Seq<(String, Option<String>)>,
    key: String,
    value: Option<String>,
    new: Seq<(String, Option<String>)>,
) -> bool {
    &&& (exists|i: int| 0 <= i < old.len() && (#[trigger] old[i]).0@ == key@) ==> exists|i: int|
        0 <= i < old.len() && (#[trigger] old[i]).0@ == key@ && new == old.update(i, (key, value))
    &&& !(exists|i: int| 0 <= i < old.len() && (#[trigger] old[i]).0@ == key@) ==> new == old.push((key, value))
}

/// The in-memory AppView store.
pub struct MemoryStore {
    pub repos: Vec<IndexedRepo>,
    pub profiles: Vec<IndexedProfile>,
    pub posts: Vec<IndexedPost>,
    pub media_jobs: Vec<MediaJob>,
    pub service_state: Vec<(String, Option<String>)>,
}

/// No two service-state entries share a key.
pub open spec fn unique_state_keys(v: Seq<(String, Option<String>)>) -> bool {
    forall|i: int, j: int| 0 <= i < j < v.len() ==> (#[trigger] v[i]).0@ != (#[trigger] v[j]).0@
}

impl MemoryStore {
    /// Repos, profiles and posts are keyed uniquely, and so is service state.
    pub open spec fn wf(&self) -> bool {
        &&& unique_keys(self.repos@)
        &&& unique_keys(self.profiles@)
        &&& unique_keys(self.posts@)
        &&& unique_state_keys(self.service_state@)
    }

    pub fn new() -> (s: MemoryStore)
        ensures
            s.wf(),
            s.repos@.len() == 0 && s.profiles@.len() == 0 && s.posts@.len() == 0,
            s.media_jobs@.len() == 0 && s.service_state@.len() == 0,
    {
        MemoryStore {
            repos: Vec::new(),
            profiles: Vec::new(),
            posts: Vec::new(),
            media_jobs: Vec::new(),
            service_state: Vec::new(),
        }
    }

    /// Record a service-state value under `key`, replacing any earlier one.
    pub fn set_service_state(&mut self, key: String, value: Option<String>)
        requires
            old(self).wf(),
        ensures
            final(self).wf(),
            final(self).repos == old(self).repos && final(self).profiles == old(self).profiles
                && final(self).posts == old(self).posts && final(self).media_jobs == old(self).media_jobs,
            state_set(old(self).service_state@, key, value, final(self).service_state@),
            exists|i: int| 0 <= i < final(self).service_state@.len() && (#[trigger] final(self).service_state@[i]).0@ == key@
                && final(self).service_state@[i].1 == value,
            forall|i: int| 0 <= i < old(self).service_state@.len() && (#[trigger] old(self).service_state@[i]).0@ != key@
                ==> final(self).service_state@.contains(old(self).service_state@[i]),
    {
        let mut i: usize = 0;
        while i < self.service_state.len()
            invariant
                i <= self.service_state@.len(),
                *self == *old(self),
                old(self).wf(),
                forall|j: int| 0 <= j < i ==> (#[trigger] self.service_state@[j]).0@ != key@,
            decreases self.service_state.len() - i,
        {
            if str_equal(self.service_state[i].0.as_str(), key.as_str()) {
                let ghost before = self.service_state@;
                let entry = (key, value);
                self.service_state.set(i, entry);
                proof {
                    assert forall|a: int, b: int| 0 <= a < b < self.service_state@.len() implies (#[trigger] self.service_state@[a]).0@
                        != (#[trigger] self.service_state@[b]).0@ by {
                        if a == i {
                            assert(before[a].0@ != before[b].0@);
                        } else if b == i {
                            assert(before[a].0@ != before[b].0@);
                        }
                    }
                    assert(self.service_state@[i as int] == entry);
                    assert(self.service_state@ == before.update(i as int, entry));
                    assert(before[i as int].0@ == entry.0@);
                    assert forall|j: int| 0 <= j < before.len() && (#[trigger] before[j]).0@ != entry.0@ implies self.service_state@.contains(before[j]) by {
                        assert(j != i);
                        assert(self.service_state@[j] == before[j]);
                    }
                }
                return;
            }
            i += 1;
        }
        let ghost before = self.service_state@;
        let entry = (key, value);
        self.service_state.push(entry);
        proof {
            assert(self.service_state@[before.len() as int] == entry);
            assert(!(exists|j: int| 0 <= j < before.len() && (#[trigger] before[j]).0@ == entry.0@));
            assert forall|a: int, b: int| 0 <= a < b < self.service_state@.len() implies (#[trigger] self.service_state@[a]).0@
                != (#[trigger] self.service_state@[b]).0@ by {
                if b == before.len() {
                    assert(self.service_state@[a] == before[a]);
                } else {
                    assert(self.service_state@[a] == before[a] && self.service_state@[b] == before[b]);
                }
            }
            assert forall|j: int| 0 <= j < before.len() && (#[trigger] before[j]).0@ != entry.0@ implies self.service_state@.contains(before[j]) by {
                assert(self.service_state@[j] == before[j]);
            }
        }
    }

    /// Apply one write.
    pub fn apply(&mut self, write: StoreWrite)
        requires
            old(self).wf(),
        ensures
            final(self).wf(),
            match write {
                StoreWrite::UpsertRepo { repo } => upserted(old(self).repos@, repo, final(self).repos@)
                    && final(self).profiles == old(self).profiles && final(self).posts == old(self).posts
                    && final(self).media_jobs == old(self).media_jobs && final(self).service_state
                    == old(self).service_state,
                StoreWrite::UpsertProfile { profile } => upserted(old(self).profiles@, profile, final(self).profiles@)
                    && final(self).repos == old(self).repos && final(self).posts == old(self).posts
                    && final(self).media_jobs == old(self).media_jobs && final(self).service_state
                    == old(self).service_state,
                StoreWrite::UpsertPost { post } => upserted(old(self).posts@, post, final(self).posts@)
                    && final(self).repos == old(self).repos && final(self).profiles == old(self).profiles
                    && final(self).media_jobs == old(self).media_jobs && final(self).service_state
                    == old(self).service_state,
                StoreWrite::QueueMediaJob { job } => final(self).media_jobs@ == old(self).media_jobs@.push(job)
                    && final(self).repos == old(self).repos && final(self).profiles == old(self).profiles
                    && final(self).posts == old(self).posts && final(self).service_state == old(self).service_state,
                StoreWrite::SetServiceState { key, value } => state_set(
                    old(self).service_state@,
                    key,
                    value,
                    final(self).service_state@,
                ) && final(self).repos == old(self).repos && final(self).profiles == old(self).profiles
                    && final(self).posts == old(self).posts && final(self).media_jobs == old(self).media_jobs,
            },
    {
        match write {
            StoreWrite::UpsertRepo { repo } => upsert_by_key(&mut self.repos, repo),
            StoreWrite::UpsertProfile { profile } => upsert_by_key(&mut self.profiles, profile),
            StoreWrite::UpsertPost { post } => upsert_by_key(&mut self.posts, post),
            StoreWrite::QueueMediaJob { job } => self.media_jobs.push(job),
            StoreWrite::SetServiceState { key, value } => self.set_service_state(key, value),
        }
    }
}

} // verus!
