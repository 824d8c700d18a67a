use divine_sky::appview::{
    author_feed_response, get_posts_response, page_limit, parse_uris_query, post_thread_response, post_view,
    profile_response, search_posts_response, AppviewPostRow, AppviewProfileRow, DbStore, StoredPost,
    StoredProfile, DEFAULT_PAGE_LIMIT, STATUS_NOT_FOUND,
};

fn video_post(uri: &str, playlist_url: Option<&str>) -> StoredPost {
    StoredPost {
        uri: uri.to_string(),
        cid: Some("cid-demo".to_string()),
        did: "did:plc:ebt5msdpfavoklkap6gl54bm".to_string(),
        handle: "divine.test".to_string(),
        display_name: Some("Divine".to_string()),
        description: Some("Profile".to_string()),
        avatar: None,
        banner: None,
        text: "Divine video".to_string(),
        created_at: 1_700_000_000,
        embed_blob_cid: Some("bafkrei-demo".to_string()),
        embed_alt: Some("Demo".to_string()),
        playlist_url: playlist_url.map(|p| p.to_string()),
        thumbnail_url: Some("https://media.divine.test/thumb.jpg".to_string()),
    }
}

#[test]
fn get_profile_returns_divine_actor_view() {
    let profile = StoredProfile {
        did: "did:plc:ebt5msdpfavoklkap6gl54bm".to_string(),
        handle: "divine.test".to_string(),
        display_name: Some("Divine".to_string()),
        description: Some("Profile".to_string()),
        avatar: None,
        banner: None,
    };
    let view = profile_response(Some(profile)).ok().unwrap();
    assert_eq!(view.did, "did:plc:ebt5msdpfavoklkap6gl54bm");
    assert_eq!(view.handle, "divine.test");
    assert_eq!(view.display_name.as_deref(), Some("Divine"));
    assert_eq!(profile_response(None).err(), Some(STATUS_NOT_FOUND));
}

#[test]
fn get_posts_hydrates_video_embed_view() {
    let uri = "at://did:plc:ebt5msdpfavoklkap6gl54bm/app.bsky.feed.post/MA6mjTWZKEB";
    assert_eq!(parse_uris_query(&format!("uris={uri}")), vec![uri.to_string()]);
    let r = get_posts_response(vec![video_post(uri, Some("https://media.divine.test/playlists/bafkrei-demo.m3u8"))]);
    assert_eq!(r.posts.len(), 1);
    let embed = r.posts[0].embed.as_ref().unwrap();
    assert_eq!(embed.type_, "app.bsky.embed.video#view");
    assert_eq!(embed.cid, "bafkrei-demo");
    assert_eq!(embed.playlist, "https://media.divine.test/playlists/bafkrei-demo.m3u8");
    assert_eq!(embed.thumbnail.as_deref(), Some("https://media.divine.test/thumb.jpg"));
    assert_eq!(embed.alt.as_deref(), Some("Demo"));
    assert_eq!(r.posts[0].created_at, "2023-11-14T22:13:20Z");
    assert_eq!(r.posts[0].author.handle, "divine.test");
}

#[test]
fn search_posts_returns_video_views_without_raw_blob_urls() {
    let r = search_posts_response(vec![video_post("at://x/app.bsky.feed.post/1", Some("https://m/p.m3u8"))]);
    assert!(r.cursor.is_none());
    let embed = r.posts[0].embed.as_ref().unwrap();
    assert_eq!(embed.playlist, "https://m/p.m3u8");
    assert!(!embed.playlist.contains("com.atproto.sync.getBlob"));
}

#[test]
fn posts_without_a_playlist_have_no_embed() {
    let v = post_view(video_post("at://x/app.bsky.feed.post/1", None));
    assert!(v.embed.is_none());
    let feed = author_feed_response(vec![video_post("a", None), video_post("b", Some("p"))]);
    assert_eq!(feed.feed.len(), 2);
    assert_eq!(feed.feed[0].post.uri, "a");
    assert!(feed.feed[1].post.embed.is_some());
    assert!(feed.cursor.is_none());
    assert!(post_thread_response(None).is_err());
    assert_eq!(post_thread_response(Some(video_post("t", None))).ok().unwrap().thread.post.uri, "t");
}

#[test]
fn page_limits_default_to_twenty_five() {
    assert_eq!(page_limit(None), DEFAULT_PAGE_LIMIT);
    assert_eq!(page_limit(None), 25);
    assert_eq!(page_limit(Some(3)), 3);
}

#[test]
fn uris_query_collects_every_uris_pair() {
    assert_eq!(
        parse_uris_query("uris=at%3A%2F%2Fa&x=1&uris=at://b"),
        vec!["at://a".to_string(), "at://b".to_string()]
    );
    assert!(parse_uris_query("").is_empty());
}

#[test]
fn store_rows_become_profiles_and_posts() {
    let store = DbStore::new("postgres://db".into(), "https://media.divine.test/".into());
    assert_eq!(
        store.media_blob_url("did:plc:abc", "bafk"),
        "https://media.divine.test/blobs/did/plc/abc/bafk"
    );
    let profile = store.map_profile_row(AppviewProfileRow {
        did: "did:plc:abc".into(),
        handle: None,
        display_name: Some("A".into()),
        description: None,
        avatar_cid: Some("bafkavatar".into()),
        banner_cid: None,
    });
    assert_eq!(profile.handle, "did:plc:abc");
    assert_eq!(profile.avatar.as_deref(), Some("https://media.divine.test/blobs/did/plc/abc/bafkavatar"));
    assert_eq!(profile.banner, None);
    let post = store.stored_post(
        AppviewPostRow {
            uri: "at://did:plc:abc/app.bsky.feed.post/1".into(),
            did: "did:plc:abc".into(),
            record_cid: Some("cid".into()),
            text: "hi".into(),
            created_at: 5,
            embed_blob_cid: Some("bafkvideo".into()),
            embed_alt: None,
            playlist_url: Some(String::new()),
            thumbnail_url: None,
        },
        profile.clone(),
    );
    assert_eq!(post.playlist_url, None);
    assert_eq!(post.handle, "did:plc:abc");
    assert_eq!(post.cid.as_deref(), Some("cid"));
}
