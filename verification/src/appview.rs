//! The Divine AppView read side: stored profiles and posts, their
//! `app.bsky` views, and the query shapes of the XRPC routes.
//!
//! The database and the HTTP server are the caller's; this module turns
//! stored rows into views and responses.

use vstd::prelude::*;
use crate::chars::{char_vec, push_all, push_char, str_equal, string_from_range};
use crate::translator::{iso8601_of, unix_to_iso8601};

verus! {

broadcast use vstd::seq_lib::group_seq_properties;

/// A profile as the AppView store holds it.
#[derive(Debug, Clone, PartialEq, Eq)]
pub struct StoredProfile {
    pub did: String,
    pub handle: String,
    pub display_name: Option<String>,
    pub description: Option<String>,
    pub avatar: Option<String>,
    pub banner: Option<String>,
}

/// A post joined with its author's profile and its media (creation time in
/// Unix seconds).
#[derive(Debug, Clone, PartialEq, Eq)]
pub struct StoredPost {
    pub uri: String,
    pub cid: Option<String>,
    pub did: String,
    pub handle: String,
    pub display_name: Option<String>,
    pub description: Option<String>,
    pub avatar: Option<String>,
    pub banner: Option<String>,
    pub text: String,
    pub created_at: i64,
    pub embed_blob_cid: Option<String>,
    pub embed_alt: Option<String>,
    pub playlist_url: Option<String>,
    pub thumbnail_url: Option<String>,
}

/// `app.bsky.actor.defs#profileView`.
pub struct ProfileView {
    pub did: String,
    pub handle: String,
    pub display_name: Option<String>,
    pub description: Option<String>,
    pub avatar: Option<String>,
    pub banner: Option<String>,
}

pub struct GetPostsResponse {
    pub posts: Vec<PostView>,
}

pub struct FeedResponse {
    pub feed: Vec<FeedItem>,
    pub cursor: Option<String>,
}

pub struct FeedItem {
    pub post: PostView,
}

pub struct SearchPostsResponse {
    pub posts: Vec<PostView>,
    pub cursor: Option<String>,
}

pub struct PostThreadResponse {
    pub thread: ThreadView,
}

pub struct ThreadView {
    pub post: PostView,
}

/// `app.bsky.feed.defs#postView`.
pub struct PostView {
    pub uri: String,
    pub cid: Option<String>,
    pub author: ProfileView,
    pub text: String,
    pub created_at: String,
    pub embed: Option<VideoEmbedView>,
}

/// `app.bsky.embed.video#view`.
pub struct VideoEmbedView {
    pub type_: String,
    pub cid: String,
    pub playlist: String,
    pub thumbnail: Option<String>,
    pub alt: Option<String>,
}

/// `app.bsky.actor.getProfile` parameters.
pub struct ProfileQuery {
    pub actor: String,
}

/// `app.bsky.feed.getAuthorFeed` parameters.
pub struct AuthorFeedQuery {
    pub actor: String,
    pub limit: Option<usize>,
    pub cursor: Option<String>,
}

/// `app.bsky.feed.getPostThread` parameters.
pub struct PostThreadQuery {
    pub uri: String,
}

/// `app.bsky.feed.searchPosts` parameters.
pub struct SearchQuery {
    pub q: String,
    pub limit: Option<usize>,
    pub cursor: Option<String>,
}

/// Page size when a query gives none.
pub const DEFAULT_PAGE_LIMIT: usize = 25;

/// The page size of a feed or search query.
pub fn page_limit(limit: Option<usize>) -> (n: usize)
    ensures
        n == match limit {
            Some(l) => l,
            None => DEFAULT_PAGE_LIMIT,
        },
{
    match limit {
        Some(l) => l,
        None => DEFAULT_PAGE_LIMIT,
    }
}

/// The view of a stored profile carries its fields unchanged.
pub fn profile_view(profile: StoredProfile) -> (v: ProfileView)
    ensures
        v.did == profile.did,
        v.handle == profile.handle,
        v.display_name == profile.display_name,
        v.description == profile.description,
        v.avatar == profile.avatar,
        v.banner == profile.banner,
{
    ProfileView {
        did: profile.did,
        handle: profile.handle,
        display_name: profile.display_name,
        description: profile.description,
        avatar: profile.avatar,
        banner: profile.banner,
    }
}

/// The view of a stored post: its author from the joined profile, its time
/// in RFC 3339 seconds, and a video embed when it has both a blob and a
/// playlist.
pub open spec fn post_view_of(v: PostView, p: StoredPost) -> bool {
    &&& v.uri == p.uri
    &&& v.cid == p.cid
    &&& v.author.did == p.did && v.author.handle == p.handle && v.author.display_name
        == p.display_name && v.author.description == p.description && v.author.avatar == p.avatar
        && v.author.banner == p.banner
    &&& v.text == p.text
    &&& v.created_at@ == iso8601_of(p.created_at)
    &&& match (p.embed_blob_cid, p.playlist_url) {
        (Some(c), Some(pl)) => v.embed matches Some(e) && e.type_@ == "app.bsky.embed.video#view"@
            && e.cid == c && e.playlist == pl && e.thumbnail == p.thumbnail_url && e.alt
            == p.embed_alt,
        _ => v.embed is None,
    }
}

pub fn post_view(post: StoredPost) -> (v: PostView)
    ensures
        post_view_of(v, post),
{
    let created_at = unix_to_iso8601(post.created_at);
    let embed = match (post.embed_blob_cid, post.playlist_url) {
        (Some(cid), Some(playlist)) => Some(
            VideoEmbedView {
                type_: "app.bsky.embed.video#view".to_string(),
                cid,
                playlist,
                thumbnail: post.thumbnail_url,
                alt: post.embed_alt,
            },
        ),
        _ => None,
    };
    PostView {
        uri: post.uri,
        cid: post.cid,
        author: ProfileView {
            did: post.did,
            handle: post.handle,
            display_name: post.display_name,
            description: post.description,
            avatar: post.avatar,
            banner: post.banner,
        },
        text: post.text,
        created_at,
        embed,
    }
}

/// The views of stored posts, in order.
pub fn post_views(posts: Vec<StoredPost>) -> (views: Vec<PostView>)
    ensures
        views@.len() == posts@.len(),
        forall|i: int| 0 <= i < posts@.len() ==> post_view_of(#[trigger] views@[i], posts@[i]),
{
    let mut rest = posts;
    let mut views: Vec<PostView> = Vec::new();
    let ghost all = rest@;
    while rest.len() > 0
        invariant
            views@.len() + rest@.len() == all.len(),
            rest@ == all.skip(views@.len() as int),
            forall|i: int| 0 <= i < views@.len() ==> post_view_of(#[trigger] views@[i], all[i]),
        decreases rest.len(),
    {
        let p = rest.remove(0);
        let ghost k = views@.len();
        assert(p == all[k as int]);
        views.push(post_view(p));
        assert(rest@ =~= all.skip(views@.len() as int));
    }
    views
}

/// The `getAuthorFeed` response: one item per post, no cursor.
pub fn author_feed_response(posts: Vec<StoredPost>) -> (r: FeedResponse)
    ensures
        r.cursor is None,
        r.feed@.len() == posts@.len(),
        forall|i: int| 0 <= i < posts@.len() ==> post_view_of(#[trigger] r.feed@[i].post, posts@[i]),
{
    let views = post_views(posts);
    let mut rest = views;
    let mut feed: Vec<FeedItem> = Vec::new();
    let ghost all = rest@;
    while rest.len() > 0
        invariant
            feed@.len() + rest@.len() == all.len(),
            rest@ == all.skip(feed@.len() as int),
            forall|i: int| 0 <= i < feed@.len() ==> (#[trigger] feed@[i]).post == all[i],
        decreases rest.len(),
    {
        let v = rest.remove(0);
        feed.push(FeedItem { post: v });
        assert(rest@ =~= all.skip(feed@.len() as int));
    }
    FeedResponse { feed, cursor: None }
}

/// The `getPosts` response: the views of the posts found, in order.
pub fn get_posts_response(posts: Vec<StoredPost>) -> (r: GetPostsResponse)
    ensures
        r.posts@.len() == posts@.len(),
        forall|i: int| 0 <= i < posts@.len() ==> post_view_of(#[trigger] r.posts@[i], posts@[i]),
{
    GetPostsResponse { posts: post_views(posts) }
}

/// The `searchPosts` response: the views of the matches, no cursor.
pub fn search_posts_response(posts: Vec<StoredPost>) -> (r: SearchPostsResponse)
    ensures
        r.cursor is None,
        r.posts@.len() == posts@.len(),
        forall|i: int| 0 <= i < posts@.len() ==> post_view_of(#[trigger] r.posts@[i], posts@[i]),
{
    SearchPostsResponse { posts: post_views(posts), cursor: None }
}

/// The HTTP status of a missing post or profile.
pub const STATUS_NOT_FOUND: u16 = 404;

/// The `getPostThread` response, or 404 when the post is unknown.
pub fn post_thread_response(post: Option<StoredPost>) -> (r: Result<PostThreadResponse, u16>)
    ensures
        post is None <==> r == Err::<PostThreadResponse, u16>(STATUS_NOT_FOUND),
        post matches Some(p) ==> (r matches Ok(t) && post_view_of(t.thread.post, p)),
{
    match post {
        None => Err(STATUS_NOT_FOUND),
        Some(p) => Ok(PostThreadResponse { thread: ThreadView { post: post_view(p) } }),
    }
}

/// The `getProfile` response, or 404 when the actor is unknown.
pub fn profile_response(profile: Option<StoredProfile>) -> (r: Result<ProfileView, u16>)
    ensures
        profile is None <==> r == Err::<ProfileView, u16>(STATUS_NOT_FOUND),
        profile matches Some(p) ==> (r matches Ok(v) && v.did == p.did && v.handle == p.handle && v.display_name
            == p.display_name && v.description == p.description && v.avatar == p.avatar && v.banner == p.banner),
{
    match profile {
        None => Err(STATUS_NOT_FOUND),
        Some(p) => Ok(profile_view(p)),
    }
}

// ---------------------------------------------------------------------------
// Store rows
// ---------------------------------------------------------------------------

/// The AppView store's location and the base URL its media is served from.
pub struct DbStore {
    pub database_url: String,
    pub media_base_url: String,
}

/// `s` without its trailing `/` characters (`str::trim_end_matches('/')`).
pub open spec fn strip_trailing_slashes(s: Seq<char>) -> Seq<char>
    decreases s.len(),
{
    if s.len() > 0 && s.last() == '/' {
        strip_trailing_slashes(s.drop_last())
    } else {
        s
    }
}

/// `s` with every `:` replaced by `/`.
pub open spec fn colons_to_slashes(s: Seq<char>) -> Seq<char> {
    Seq::new(s.len(), |i: int| if s[i] == ':' { '/' } else { s[i] })
}

/// Where a blob of a repo is served: `{base}/blobs/{did with : as /}/{cid}`.
pub open spec fn media_blob_url_spec(base: Seq<char>, did: Seq<char>, cid: Seq<char>) -> Seq<char> {
    strip_trailing_slashes(base) + "/blobs/"@ + colons_to_slashes(did) + "/"@ + cid
}

/// A profile row: its DID, optional handle and blob CIDs.
pub struct AppviewProfileRow {
    pub did: String,
    pub handle: Option<String>,
    pub display_name: Option<String>,
    pub description: Option<String>,
    pub avatar_cid: Option<String>,
    pub banner_cid: Option<String>,
}

/// A post row with its media view (creation time in Unix seconds).
pub struct AppviewPostRow {
    pub uri: String,
    pub did: String,
    pub record_cid: Option<String>,
    pub text: String,
    pub created_at: i64,
    pub embed_blob_cid: Option<String>,
    pub embed_alt: Option<String>,
    pub playlist_url: Option<String>,
    pub thumbnail_url: Option<String>,
}

/// The served URL of an optional blob.
pub open spec fn blob_url_opt(base: Seq<char>, did: Seq<char>, cid: Option<String>, url: Option<String>) -> bool {
    match cid {
        None => url is None,
        Some(c) => url matches Some(u) && u@ == media_blob_url_spec(base, did, c@),
    }
}

/// The stored profile of a row: the DID stands in for a missing handle, and
/// blob CIDs become media URLs.
pub open spec fn stored_profile_of(p: StoredProfile, row: AppviewProfileRow, base: Seq<char>) -> bool {
    &&& p.did@ == row.did@
    &&& p.handle@ == match row.handle {
        Some(h) => h@,
        None => row.did@,
    }
    &&& p.display_name == row.display_name
    &&& p.description == row.description
    &&& blob_url_opt(base, row.did@, row.avatar_cid, p.avatar)
    &&& blob_url_opt(base, row.did@, row.banner_cid, p.banner)
}

impl DbStore {
    pub fn new(database_url: String, media_base_url: String) -> (s: DbStore)
        ensures
            s.database_url == database_url,
            s.media_base_url == media_base_url,
    {
        DbStore { database_url, media_base_url }
    }

    /// Where a blob of `did` is served from.
    pub fn media_blob_url(&self, did: &str, cid: &str) -> (url: String)
        ensures
            url@ == media_blob_url_spec(self.media_base_url@, did@, cid@),
    {
        let base = char_vec(self.media_base_url.as_str());
        let mut end = base.len();
        while end > 0 && base[end - 1] == '/'
            invariant
                end <= base@.len(),
                strip_trailing_slashes(base@) == strip_trailing_slashes(base@.take(end as int)),
            decreases end,
        {
            assert(base@.take(end as int).drop_last() =~= base@.take(end - 1));
            end -= 1;
        }
        assert(base@.take(end as int) =~= base@.subrange(0, end as int));
        let mut url = string_from_range(&base, 0, end);
        push_all(&mut url, "/blobs/");
        let d = char_vec(did);
        let mut i: usize = 0;
        let ghost prefix = url@;
        while i < d.len()
            invariant
                i <= d@.len(),
                d@ == did@,
                url@ == prefix + colons_to_slashes(did@).take(i as int),
            decreases d.len() - i,
        {
            if d[i] == ':' {
                push_char(&mut url, '/');
            } else {
                push_char(&mut url, d[i]);
            }
            i += 1;
            assert(colons_to_slashes(did@).take(i as int) =~= colons_to_slashes(did@).take(i - 1).push(
                colons_to_slashes(did@)[i - 1],
            ));
        }
        assert(colons_to_slashes(did@).take(d@.len() as int) =~= colons_to_slashes(did@));
        push_all(&mut url, "/");
        push_all(&mut url, cid);
        url
    }

    fn blob_url(&self, did: &str, cid: &Option<String>) -> (url: Option<String>)
        ensures
            blob_url_opt(self.media_base_url@, did@, *cid, url),
    {
        match cid {
            None => None,
            Some(c) => Some(self.media_blob_url(did, c.as_str())),
        }
    }

    /// The stored profile of a profile row.
    pub fn map_profile_row(&self, row: AppviewProfileRow) -> (p: StoredProfile)
        ensures
            stored_profile_of(p, row, self.media_base_url@),
    {
        let avatar = self.blob_url(row.did.as_str(), &row.avatar_cid);
        let banner = self.blob_url(row.did.as_str(), &row.banner_cid);
        let handle = match row.handle {
            Some(h) => h,
            None => row.did.clone(),
        };
        StoredProfile {
            did: row.did,
            handle,
            display_name: row.display_name,
            description: row.description,
            avatar,
            banner,
        }
    }

    /// The stored post of a post row and its author's profile; an empty
    /// playlist URL counts as none.
    pub fn stored_post(&self, row: AppviewPostRow, profile: StoredProfile) -> (p: StoredPost)
        ensures
            p.uri == row.uri && p.cid == row.record_cid,
            p.did == profile.did && p.handle == profile.handle && p.display_name == profile.display_name
                && p.description == profile.description && p.avatar == profile.avatar && p.banner
                == profile.banner,
            p.text == row.text && p.created_at == row.created_at,
            p.embed_blob_cid == row.embed_blob_cid && p.embed_alt == row.embed_alt,
            p.thumbnail_url == row.thumbnail_url,
            p.playlist_url == match row.playlist_url {
                Some(u) => if u@.len() == 0 {
                    None
                } else {
                    Some(u)
                },
                None => None,
            },
    {
        let playlist_url = match row.playlist_url {
            Some(u) => if u.as_str().is_empty() {
                None
            } else {
                Some(u)
            },
            None => None,
        };
        StoredPost {
            uri: row.uri,
            cid: row.record_cid,
            did: profile.did,
            handle: profile.handle,
            display_name: profile.display_name,
            description: profile.description,
            avatar: profile.avatar,
            banner: profile.banner,
            text: row.text,
            created_at: row.created_at,
            embed_blob_cid: row.embed_blob_cid,
            embed_alt: row.embed_alt,
            playlist_url,
            thumbnail_url: row.thumbnail_url,
        }
    }
}

// ---------------------------------------------------------------------------
// getPosts query string
// ---------------------------------------------------------------------------

/// The `(key, value)` pairs of an `application/x-www-form-urlencoded` text,
/// decoded, in order.
pub uninterp spec fn form_urlencoded_pairs(query: Seq<char>) -> Seq<(Seq<char>, Seq<char>)>;

/// `url::form_urlencoded::parse` on the query's bytes, each pair decoded
/// into owned strings.
#[verifier::external_body]
fn form_pairs(query: &str) -> (res: Vec<(String, String)>)
    ensures
        res@.len() == form_urlencoded_pairs(query@).len(),
        forall|i: int|
            0 <= i < res@.len() ==> (#[trigger] res@[i]).0@ == form_urlencoded_pairs(query@)[i].0
                && res@[i].1@ == form_urlencoded_pairs(query@)[i].1,
{
    url::form_urlencoded::parse(query.as_bytes()).map(|(k, v)| (k.into_owned(), v.into_owned())).collect()
}

/// The values of the pairs named `key`, in order.
pub open spec fn values_named(pairs: Seq<(Seq<char>, Seq<char>)>, key: Seq<char>) -> Seq<Seq<char>>
    decreases pairs.len(),
{
    if pairs.len() == 0 {
        Seq::empty()
    } else {
        let r = values_named(pairs.drop_last(), key);
        if pairs.last().0 == key {
            r.push(pairs.last().1)
        } else {
            r
        }
    }
}

/// The `uris` parameters of a `getPosts` query string, in order.
pub fn parse_uris_query(query: &str) -> (uris: Vec<String>)
    ensures
        uris@.len() == values_named(form_urlencoded_pairs(query@), "uris"@).len(),
        forall|i: int| 0 <= i < uris@.len() ==> (#[trigger] uris@[i])@ == values_named(
            form_urlencoded_pairs(query@),
            "uris"@,
        )[i],
{
    let pairs = form_pairs(query);
    let ghost all = form_urlencoded_pairs(query@);
    let mut uris: Vec<String> = Vec::new();
    let mut i: usize = 0;
    while i < pairs.len()
        invariant
            i <= pairs@.len(),
            pairs@.len() == all.len(),
            forall|j: int| 0 <= j < pairs@.len() ==> (#[trigger] pairs@[j]).0@ == all[j].0 && pairs@[j].1@ == all[j].1,
            uris@.len() == values_named(all.take(i as int), "uris"@).len(),
            forall|j: int| 0 <= j < uris@.len() ==> (#[trigger] uris@[j])@ == values_named(all.take(i as int), "uris"@)[j],
        decreases pairs.len() - i,
    {
        assert(all.take(i + 1).drop_last() =~= all.take(i as int));
        if str_equal(pairs[i].0.as_str(), "uris") {
            uris.push(pairs[i].1.clone());
        }
        i += 1;
    }
    assert(all.take(all.len() as int) =~= all);
    uris
}

} // verus!
