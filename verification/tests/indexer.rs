use divine_sky::indexer::{
    extract_blob_cid, parse_post, parse_profile, repo_for_sync, repo_from_entry, rkey_from_uri, snapshot_writes,
    upsert_by_key, IndexedPost, IndexedRepo, ListRepoEntry, MemoryStore, NoopRelayStream, RecordRow, RelayStream, RepoSnapshot,
    StoreWrite, LAST_BACKFILL_KEY,
};
use chrono::TimeZone;
use divine_sky::json::{get_member, JsonNumber, JsonValue};

fn convert(v: serde_json::Value) -> JsonValue {
    match v {
        serde_json::Value::Null => JsonValue::Null,
        serde_json::Value::Bool(b) => JsonValue::Bool(b),
        serde_json::Value::Number(n) => JsonValue::Number(match (n.as_u64(), n.as_i64()) {
            (Some(u), _) => JsonNumber::Unsigned(u),
            (None, Some(i)) => JsonNumber::Signed(i),
            _ => JsonNumber::Float,
        }),
        serde_json::Value::String(s) => JsonValue::String(s),
        serde_json::Value::Array(a) => JsonValue::Array(a.into_iter().map(convert).collect()),
        serde_json::Value::Object(o) => JsonValue::Object(o.into_iter().map(|(k, x)| (k, convert(x))).collect()),
    }
}

fn json(text: &str) -> JsonValue {
    convert(serde_json::from_str(text).unwrap())
}

fn repo() -> IndexedRepo {
    repo_from_entry(ListRepoEntry {
        did: "did:plc:ebt5msdpfavoklkap6gl54bm".into(),
        handle: Some("divine.test".into()),
        head: Some("head".into()),
        rev: Some("rev".into()),
        active: None,
    })
}

#[test]
fn backfill_syncs_profiles_posts_and_blob_metadata_from_pds() {
    let repo = repo();
    assert!(repo.active);
    let profile_value = r#"{"$type":"app.bsky.actor.profile","displayName":"Divine","description":"Profile","website":"https://divine.video","avatar":{"$type":"blob","ref":{"$link":"bafkreiavatar"},"mimeType":"image/png","size":3},"createdAt":"2026-01-01T00:00:00Z"}"#;
    let profile = parse_profile(
        &repo,
        &RecordRow { uri: "at://did:plc:ebt5msdpfavoklkap6gl54bm/app.bsky.actor.profile/self".into(), cid: None, value: json(profile_value) },
        21,
    );
    let expected_raw: serde_json::Value = serde_json::from_str(profile_value).unwrap();
    assert_eq!(profile.raw_json, Some(serde_json::to_string(&expected_raw).unwrap()));
    assert_eq!(profile.display_name.as_deref(), Some("Divine"));
    assert_eq!(profile.website.as_deref(), Some("https://divine.video"));
    assert_eq!(profile.avatar_cid.as_deref(), Some("bafkreiavatar"));
    assert_eq!(profile.banner_cid, None);
    assert_eq!(profile.created_at, Some(1_767_225_600_000_000));
    assert_eq!(profile.handle.as_deref(), Some("divine.test"));

    let post_value = r#"{"text":"Divine demo","createdAt":"2026-01-01T00:00:12Z","embed":{"$type":"app.bsky.embed.video","video":{"ref":{"$link":"bafkreidemo001"},"mimeType":"video/mp4","size":9},"alt":"Demo","aspectRatio":{"width":9,"height":16}}}"#;
    let post = parse_post(
        &repo,
        &RecordRow {
            uri: "at://did:plc:ebt5msdpfavoklkap6gl54bm/app.bsky.feed.post/MA6mjTWZKEB".into(),
            cid: Some("bafyrecord".into()),
            value: json(post_value),
        },
        21,
    )
    .unwrap();
    let expected_raw: serde_json::Value = serde_json::from_str(post_value).unwrap();
    assert_eq!(post.raw_json, Some(serde_json::to_string(&expected_raw).unwrap()));
    assert_eq!(post.langs_json, None);
    assert_eq!(post.rkey, "MA6mjTWZKEB");
    assert_eq!(post.embed_blob_cid.as_deref(), Some("bafkreidemo001"));
    assert_eq!(post.embed_alt.as_deref(), Some("Demo"));
    assert_eq!((post.aspect_ratio_width, post.aspect_ratio_height), (Some(9), Some(16)));
    assert_eq!(post.created_at, 1_767_225_612_000_000);
    assert_eq!(post.search_text, "Divine demo");
    assert_eq!(post.deleted_at, None);

    let writes = snapshot_writes(RepoSnapshot { repo: repo.clone(), profile: Some(profile), posts: vec![post] });
    assert_eq!(writes.len(), 4);
    assert!(matches!(&writes[0], StoreWrite::UpsertRepo { .. }));
    assert!(matches!(&writes[1], StoreWrite::UpsertProfile { .. }));
    match &writes[2] {
        StoreWrite::QueueMediaJob { job } => assert_eq!(job.blob_cid, "bafkreidemo001"),
        _ => panic!("expected the media job before the post"),
    }
    assert!(matches!(&writes[3], StoreWrite::UpsertPost { .. }));

    let mut store = MemoryStore::new();
    for w in writes {
        store.apply(w);
    }
    assert_eq!(store.repos.len(), 1);
    assert_eq!(store.profiles.len(), 1);
    assert_eq!(store.posts.len(), 1);
    assert_eq!(store.media_jobs.len(), 1);
}

#[test]
fn post_records_need_an_rfc3339_creation_time() {
    let repo = repo();
    let row = |v: &str| RecordRow { uri: "at://d/app.bsky.feed.post/k".into(), cid: None, value: json(v) };
    assert_eq!(parse_post(&repo, &row(r#"{"text":"x"}"#), 0).unwrap_err(), "post record is missing createdAt");
    assert_eq!(
        parse_post(&repo, &row(r#"{"text":"x","createdAt":"yesterday"}"#), 0).unwrap_err(),
        "post createdAt is not valid RFC3339"
    );
    let p = parse_post(&repo, &row(r#"{"createdAt":"1970-01-01T00:00:01+01:00"}"#), 0).unwrap();
    assert_eq!(p.raw_json.as_deref(), Some(r#"{"createdAt":"1970-01-01T00:00:01+01:00"}"#));
    let with_langs = parse_post(&repo, &row(r#"{"createdAt":"1970-01-01T00:00:01Z","langs":["en", "pt"]}"#), 0).unwrap();
    assert_eq!(with_langs.langs_json.as_deref(), Some(r#"["en","pt"]"#));
    assert_eq!(p.created_at, -3_599_000_000);
    assert_eq!(p.text, "");
    assert_eq!(p.embed_blob_cid, None);
}

#[test]
fn upserts_replace_by_key() {
    let mut repos = vec![repo()];
    let mut newer = repo();
    newer.rev = Some("rev2".into());
    upsert_by_key(&mut repos, newer);
    assert_eq!(repos.len(), 1);
    assert_eq!(repos[0].rev.as_deref(), Some("rev2"));
    let mut other = repo();
    other.did = "did:plc:other".into();
    upsert_by_key(&mut repos, other);
    assert_eq!(repos.len(), 2);
    let mut first_again = repo();
    first_again.rev = Some("rev3".into());
    upsert_by_key(&mut repos, first_again);
    assert_eq!(repos.len(), 2);
    assert_eq!(repos[0].rev.as_deref(), Some("rev3"));
    assert_eq!(repos[1].did, "did:plc:other");
    let mut twice = vec![repo(), repo()];
    let mut newest = repo();
    newest.rev = Some("rev4".into());
    upsert_by_key(&mut twice, newest);
    assert_eq!(twice[0].rev.as_deref(), Some("rev4"));
    assert_eq!(twice[1].rev, repo().rev);

    let mut store = MemoryStore::new();
    store.set_service_state(LAST_BACKFILL_KEY.to_string(), Some("a".into()));
    store.set_service_state(LAST_BACKFILL_KEY.to_string(), Some("b".into()));
    assert_eq!(store.service_state, vec![(LAST_BACKFILL_KEY.to_string(), Some("b".to_string()))]);
}

#[test]
fn sync_picks_the_listed_repo_or_a_bare_one() {
    let listed = repo_for_sync(vec![repo()], "did:plc:ebt5msdpfavoklkap6gl54bm", 77);
    assert_eq!(listed.handle.as_deref(), Some("divine.test"));
    assert_eq!(listed.last_backfilled_at, Some(77));
    let bare = repo_for_sync(vec![repo()], "did:plc:new", 78);
    assert_eq!((bare.did.as_str(), bare.handle.clone(), bare.active), ("did:plc:new", None, true));
    assert_eq!(bare.last_backfilled_at, Some(78));
}

#[test]
fn uris_and_blobs() {
    assert_eq!(rkey_from_uri("at://did/app.bsky.feed.post/abc"), "abc");
    assert_eq!(rkey_from_uri("no-slashes"), "no-slashes");
    assert_eq!(rkey_from_uri("trailing/"), "");
    let v = json(r#"{"ref":{"$link":"bafk"}}"#);
    assert_eq!(extract_blob_cid(Some(&v)), Some("bafk".to_string()));
    assert_eq!(extract_blob_cid(get_member(&v, "missing")), None);
    assert_eq!(NoopRelayStream.next_changed_repo(), Ok(None));
}

struct FakeRelayStream {
    changed_dids: std::collections::VecDeque<String>,
}

impl RelayStream for FakeRelayStream {
    fn next_changed_repo(&mut self) -> Result<Option<String>, String> {
        Ok(self.changed_dids.pop_front())
    }
}

#[test]
fn relay_event_triggers_repo_resync_and_media_queueing() {
    let did = "did:plc:ebt5msdpfavoklkap6gl54bm";
    let indexed_at = chrono::Utc.with_ymd_and_hms(2026, 3, 21, 12, 0, 0).unwrap().timestamp();
    let snapshot = RepoSnapshot {
        repo: IndexedRepo {
            did: did.to_string(),
            handle: Some("divine.test".to_string()),
            head: None,
            rev: None,
            active: true,
            last_backfilled_at: None,
            last_seen_seq: None,
        },
        profile: None,
        posts: vec![IndexedPost {
            uri: format!("at://{did}/app.bsky.feed.post/MA6mjTWZKEB"),
            did: did.to_string(),
            rkey: "MA6mjTWZKEB".to_string(),
            record_cid: Some("cid-demo".to_string()),
            created_at: indexed_at,
            text: "relay".to_string(),
            langs_json: None,
            embed_blob_cid: Some("bafkrei-relay".to_string()),
            embed_alt: None,
            aspect_ratio_width: Some(9),
            aspect_ratio_height: Some(16),
            raw_json: None,
            search_text: "relay".to_string(),
            indexed_at,
            deleted_at: None,
        }],
    };
    let mut snapshots = std::collections::HashMap::from([(did.to_string(), snapshot)]);
    let mut relay = FakeRelayStream { changed_dids: std::collections::VecDeque::from(vec![did.to_string()]) };
    let mut store = MemoryStore::new();

    if let Some(changed) = relay.next_changed_repo().unwrap() {
        let snapshot = snapshots.remove(&changed).unwrap();
        for write in snapshot_writes(snapshot) {
            store.apply(write);
        }
        store.set_service_state("appview_last_relay_did".to_string(), Some(changed));
    }

    assert_eq!(store.media_jobs.len(), 1);
    assert_eq!(store.media_jobs[0].blob_cid, "bafkrei-relay");
    assert_eq!(store.posts.len(), 1);
    assert_eq!(store.service_state, vec![("appview_last_relay_did".to_string(), Some(did.to_string()))]);
    assert_eq!(relay.next_changed_repo(), Ok(None));
}
