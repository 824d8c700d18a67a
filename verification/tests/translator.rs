use divine_sky::event::{BlobRef, NostrEvent};
use divine_sky::translator::{
    derive_rkey, is_valid_rkey, parse_aspect_ratio, translate_nip71_to_post, unix_to_iso8601, AspectRatio,
};

fn make_event(content: &str, tags: Vec<Vec<&str>>) -> NostrEvent {
    NostrEvent {
        id: "abc123def456".to_string(),
        pubkey: "pubkey123".to_string(),
        created_at: 1700000000,
        kind: 34235,
        tags: tags.into_iter().map(|t| t.into_iter().map(String::from).collect()).collect(),
        content: content.to_string(),
        sig: "sig123".to_string(),
    }
}

fn make_blob_ref() -> BlobRef {
    BlobRef::new("bafkreiexample".to_string(), "video/mp4".to_string(), 1024000)
}

#[test]
fn full_nip71_event_translation() {
    let event = make_event(
        "",
        vec![
            vec!["title", "Sunset Timelapse"],
            vec!["t", "sunset"],
            vec!["t", "nature"],
            vec!["imeta", "url https://example.com/video.mp4", "dim 1080x1920", "x abc123hash"],
            vec!["alt", "A beautiful sunset timelapse video"],
        ],
    );
    let blob = make_blob_ref();
    let post = translate_nip71_to_post(&event, &blob).ok().unwrap();

    assert_eq!(post.type_, "app.bsky.feed.post");
    assert!(post.text.contains("Sunset Timelapse"));
    assert!(post.text.contains("#sunset"));
    assert!(post.text.contains("#nature"));
    assert_eq!(post.created_at, "2023-11-14T22:13:20Z");
    assert_eq!(post.facets.len(), 2);

    let embed = post.embed.as_ref().unwrap();
    assert_eq!(embed.type_, "app.bsky.embed.video");
    assert_eq!(embed.video.cid(), "bafkreiexample");
    assert_eq!(embed.alt.as_deref(), Some("A beautiful sunset timelapse video"));

    let ar = embed.aspect_ratio.as_ref().unwrap();
    assert_eq!(ar.width, 9);
    assert_eq!(ar.height, 16);
    assert!(post.labels.is_none());
}

#[test]
fn content_warning_produces_self_labels() {
    let event = make_event("", vec![vec!["title", "NSFW Video"], vec!["content-warning", "nudity"]]);
    let blob = make_blob_ref();
    let post = translate_nip71_to_post(&event, &blob).ok().unwrap();
    let labels = post.labels.as_ref().unwrap();
    assert_eq!(labels.type_, "com.atproto.label.defs#selfLabels");
    assert_eq!(labels.values.len(), 1);
    assert_eq!(labels.values[0].val, "nudity");
}

#[test]
fn d_tag_used_as_rkey() {
    let event = make_event("", vec![vec!["d", "my-video-slug"]]);
    assert_eq!(derive_rkey(&event), "my-video-slug");
}

#[test]
fn d_tag_with_invalid_chars_falls_back_to_hash() {
    let event = make_event("", vec![vec!["d", "invalid/rkey/with/slashes"]]);
    let rkey = derive_rkey(&event);
    assert!(!rkey.contains('/'));
    assert!(is_valid_rkey(&rkey));
}

#[test]
fn empty_d_tag_falls_back_to_event_id() {
    let event = make_event("", vec![vec!["d", ""]]);
    assert_eq!(derive_rkey(&event), "abc123def456");
}

#[test]
fn no_d_tag_falls_back_to_event_id() {
    let event = make_event("", vec![]);
    assert_eq!(derive_rkey(&event), "abc123def456");
}

#[test]
fn aspect_ratio_gcd_reduction() {
    assert_eq!(parse_aspect_ratio("1080x1920"), Some(AspectRatio { width: 9, height: 16 }));
    assert_eq!(parse_aspect_ratio("1920x1080"), Some(AspectRatio { width: 16, height: 9 }));
    assert_eq!(parse_aspect_ratio("640x480"), Some(AspectRatio { width: 4, height: 3 }));
    assert_eq!(parse_aspect_ratio("0x100"), None);
    assert_eq!(parse_aspect_ratio("invalid"), None);
}

#[test]
fn unix_timestamp_conversion() {
    assert_eq!(unix_to_iso8601(0), "1970-01-01T00:00:00Z");
    assert_eq!(unix_to_iso8601(1700000000), "2023-11-14T22:13:20Z");
}

#[test]
fn rkey_validation() {
    assert!(is_valid_rkey("simple-rkey"));
    assert!(is_valid_rkey("with.dots_and~tilde"));
    assert!(!is_valid_rkey("has/slash"));
    assert!(!is_valid_rkey("has space"));
    assert!(!is_valid_rkey(""));
    let long = "a".repeat(513);
    assert!(!is_valid_rkey(&long));
    let max = "a".repeat(512);
    assert!(is_valid_rkey(&max));
}

#[test]
fn hashed_rkey_is_lowercase_base32_of_sha256() {
    // SHA-256("invalid/rkey/with/slashes") in unpadded lower-case base32.
    let event = make_event("", vec![vec!["d", "invalid/rkey/with/slashes"]]);
    let rkey = derive_rkey(&event);
    assert_eq!(rkey.len(), 52);
    assert!(rkey.chars().all(|c| c.is_ascii_lowercase() || ('2'..='7').contains(&c)));
    let again = derive_rkey(&event);
    assert_eq!(rkey, again);
    let other = derive_rkey(&make_event("", vec![vec!["d", "other/slug"]]));
    assert_ne!(rkey, other);
}

#[test]
fn aspect_ratio_edge_cases() {
    assert_eq!(parse_aspect_ratio("7x7"), Some(AspectRatio { width: 1, height: 1 }));
    assert_eq!(parse_aspect_ratio("100x0"), None);
    assert_eq!(parse_aspect_ratio("x100"), None);
    assert_eq!(parse_aspect_ratio("100x"), None);
    assert_eq!(parse_aspect_ratio("4294967295x1"), Some(AspectRatio { width: 4294967295, height: 1 }));
    assert_eq!(parse_aspect_ratio("4294967296x1"), None);
}
