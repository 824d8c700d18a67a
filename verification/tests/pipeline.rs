use divine_sky::event::{BlobRef, NostrEvent};
use divine_sky::pipeline::{
    pipeline_step, AccountLink, BridgePipeline, PipelineAction, PipelineInput, PipelineState, ProcessResult,
    RecordMapping,
};
use secp256k1::rand::rngs::OsRng;
use secp256k1::{Keypair, Message, Secp256k1};
use sha2::{Digest, Sha256};

fn make_signed_event(kind: u64, content: &str, tags: Vec<Vec<String>>) -> NostrEvent {
    let secp = Secp256k1::new();
    let keypair = Keypair::new(&secp, &mut OsRng);
    let (xonly, _parity) = keypair.x_only_public_key();
    let pubkey_hex = hex::encode(xonly.serialize());
    let created_at: i64 = 1_700_000_000;
    let canonical = serde_json::to_string(&(0u8, &pubkey_hex, created_at, kind, &tags, content)).unwrap();
    let id_bytes: [u8; 32] = Sha256::digest(canonical.as_bytes()).into();
    let sig = secp.sign_schnorr(&Message::from_digest(id_bytes), &keypair);
    NostrEvent {
        id: hex::encode(id_bytes),
        pubkey: pubkey_hex,
        created_at,
        kind,
        tags,
        content: content.to_string(),
        sig: hex::encode(sig.serialize()),
    }
}

fn make_video_event() -> NostrEvent {
    make_signed_event(
        34235,
        "",
        vec![
            vec!["title".into(), "Test Video".into()],
            vec!["url".into(), "https://blossom.example/video.mp4".into()],
            vec!["d".into(), "test-video".into()],
        ],
    )
}

fn make_deletion_event_for(target_id: &str) -> NostrEvent {
    make_signed_event(5, "", vec![vec!["e".into(), target_id.into()]])
}

fn account_for(pubkey: &str) -> AccountLink {
    AccountLink { nostr_pubkey: pubkey.to_string(), did: "did:plc:testuser".to_string(), opted_in: true }
}

/// The stores and the PDS as a test sees them.
#[derive(Default)]
struct World {
    links: Vec<AccountLink>,
    processed_ids: Vec<String>,
    mappings: Vec<RecordMapping>,
    saved: Vec<RecordMapping>,
    published: Vec<(String, String, String)>,
    deleted_records: Vec<(String, String, String)>,
    marked_deleted: Vec<String>,
    fetched: Vec<String>,
}

/// Drive the pipeline for one event, answering each action from the world.
fn process(world: &mut World, event: &NostrEvent) -> ProcessResult {
    let mut state = PipelineState::Verifying;
    let mut input = PipelineInput::Start;
    loop {
        let (next, action) = pipeline_step(event, state, input);
        state = next;
        input = match action {
            PipelineAction::Finish { result } => return result,
            PipelineAction::LookUpAccount { pubkey } => PipelineInput::AccountLinkLoaded {
                lookup: Ok(world.links.iter().find(|l| l.nostr_pubkey == pubkey).cloned()),
            },
            PipelineAction::CheckProcessed { event_id } => {
                PipelineInput::ProcessedChecked { checked: Ok(world.processed_ids.contains(&event_id)) }
            }
            PipelineAction::FetchBlob { url } => {
                world.fetched.push(url);
                PipelineInput::BlobFetched { fetched: Ok(()) }
            }
            PipelineAction::UploadBlob => PipelineInput::BlobUploaded {
                uploaded: Ok(BlobRef { cid: "bafytest".into(), mime_type: "video/mp4".into(), size: 1024 }),
            },
            PipelineAction::PutRecord { did, collection, rkey, post } => {
                assert_eq!(post.embed.as_ref().unwrap().video.cid(), "bafytest");
                let uri = format!("at://{}/{}/{}", did, collection, rkey);
                world.published.push((did, collection, rkey));
                PipelineInput::RecordWritten { written: Ok(uri) }
            }
            PipelineAction::SaveMapping { mapping } => {
                world.saved.push(mapping);
                PipelineInput::MappingSaved { saved: Ok(()) }
            }
            PipelineAction::LookUpMapping { event_id } => PipelineInput::MappingLoaded {
                lookup: Ok(world.mappings.iter().find(|m| m.nostr_event_id == event_id).cloned()),
            },
            PipelineAction::DeleteRecord { did, collection, rkey } => {
                world.deleted_records.push((did, collection, rkey));
                PipelineInput::RecordDeleted { deleted: Ok(()) }
            }
            PipelineAction::MarkDeleted { event_id } => {
                world.marked_deleted.push(event_id);
                PipelineInput::MarkedDeleted { marked: Ok(()) }
            }
        };
    }
}

#[test]
fn happy_path_video_event_published() {
    let event = make_video_event();
    let mut world = World { links: vec![account_for(&event.pubkey)], ..Default::default() };

    match process(&mut world, &event) {
        ProcessResult::Published { at_uri, rkey } => {
            assert!(at_uri.contains("did:plc:testuser"));
            assert!(at_uri.contains("app.bsky.feed.post"));
            assert_eq!(rkey, "test-video");
            assert_eq!(at_uri, "at://did:plc:testuser/app.bsky.feed.post/test-video");
        }
        other => panic!("expected Published, got {:?}", other),
    }
    assert_eq!(world.saved.len(), 1);
    assert_eq!(world.saved[0].nostr_event_id, event.id);
    assert_eq!(world.saved[0].rkey, "test-video");
    assert!(!world.saved[0].deleted);
    assert_eq!(world.fetched, vec!["https://blossom.example/video.mp4".to_string()]);
    assert_eq!(world.published.len(), 1);
}

#[test]
fn unlinked_user_skipped() {
    let event = make_video_event();
    let mut world = World::default();
    match process(&mut world, &event) {
        ProcessResult::Skipped { reason } => assert!(reason.contains("unknown pubkey"), "got: {}", reason),
        other => panic!("expected Skipped, got {:?}", other),
    }
}

#[test]
fn duplicate_event_skipped() {
    let event = make_video_event();
    let mut world =
        World { links: vec![account_for(&event.pubkey)], processed_ids: vec![event.id.clone()], ..Default::default() };
    match process(&mut world, &event) {
        ProcessResult::Skipped { reason } => assert!(reason.contains("already processed"), "got: {}", reason),
        other => panic!("expected Skipped, got {:?}", other),
    }
    assert!(world.published.is_empty());
}

#[test]
fn invalid_signature_skipped() {
    let mut event = make_video_event();
    let mut sig_bytes = hex::decode(&event.sig).unwrap();
    sig_bytes[0] ^= 0xff;
    event.sig = hex::encode(&sig_bytes);
    let mut world = World { links: vec![account_for(&event.pubkey)], ..Default::default() };
    match process(&mut world, &event) {
        ProcessResult::Skipped { reason } => assert!(
            reason.contains("invalid signature") || reason.contains("signature verification error"),
            "got: {}",
            reason
        ),
        other => panic!("expected Skipped, got {:?}", other),
    }
}

#[test]
fn deletion_event_deletes_record() {
    let video_id = make_video_event().id;
    let del_event = make_deletion_event_for(&video_id);
    let mut world = World {
        links: vec![account_for(&del_event.pubkey)],
        mappings: vec![RecordMapping {
            nostr_event_id: video_id.clone(),
            at_uri: format!("at://did:plc:testuser/app.bsky.feed.post/{}", video_id),
            did: "did:plc:testuser".to_string(),
            collection: "app.bsky.feed.post".to_string(),
            rkey: video_id.clone(),
            deleted: false,
        }],
        ..Default::default()
    };
    match process(&mut world, &del_event) {
        ProcessResult::Deleted { at_uri } => assert!(at_uri.contains("did:plc:testuser")),
        other => panic!("expected Deleted, got {:?}", other),
    }
    assert_eq!(world.marked_deleted, vec![video_id.clone()]);
    assert_eq!(
        world.deleted_records,
        vec![("did:plc:testuser".to_string(), "app.bsky.feed.post".to_string(), video_id)]
    );
}

#[test]
fn deletion_owner_mismatch_skipped() {
    let del_event = make_deletion_event_for("event-owned-by-someone-else");
    let mut world = World {
        links: vec![AccountLink {
            nostr_pubkey: del_event.pubkey.clone(),
            did: "did:plc:deleter".to_string(),
            opted_in: true,
        }],
        mappings: vec![RecordMapping {
            nostr_event_id: "event-owned-by-someone-else".to_string(),
            at_uri: "at://did:plc:owner/app.bsky.feed.post/rkey".to_string(),
            did: "did:plc:owner".to_string(),
            collection: "app.bsky.feed.post".to_string(),
            rkey: "rkey".to_string(),
            deleted: false,
        }],
        ..Default::default()
    };
    match process(&mut world, &del_event) {
        ProcessResult::Skipped { reason } => assert!(reason.contains("does not own"), "got: {reason}"),
        other => panic!("expected Skipped, got {other:?}"),
    }
    assert!(world.deleted_records.is_empty());
    assert!(world.marked_deleted.is_empty());
}

#[test]
fn deletion_with_no_mapping_skipped() {
    let del_event = make_deletion_event_for("nonexistent-event");
    let mut world = World { links: vec![account_for(&del_event.pubkey)], ..Default::default() };
    match process(&mut world, &del_event) {
        ProcessResult::Skipped { reason } => assert!(reason.contains("no record mapping"), "got: {}", reason),
        other => panic!("expected Skipped, got {:?}", other),
    }
}

#[test]
fn user_not_opted_in_skipped() {
    let event = make_video_event();
    let mut link = account_for(&event.pubkey);
    link.opted_in = false;
    let mut world = World { links: vec![link], ..Default::default() };
    match process(&mut world, &event) {
        ProcessResult::Skipped { reason } => assert!(reason.contains("not opted in"), "got: {}", reason),
        other => panic!("expected Skipped, got {:?}", other),
    }
}

#[test]
fn already_deleted_mapping_is_not_deleted_again() {
    let del_event = make_deletion_event_for("gone");
    let mut world = World {
        links: vec![account_for(&del_event.pubkey)],
        mappings: vec![RecordMapping {
            nostr_event_id: "gone".into(),
            at_uri: "at://did:plc:testuser/app.bsky.feed.post/gone".into(),
            did: "did:plc:testuser".into(),
            collection: "app.bsky.feed.post".into(),
            rkey: "gone".into(),
            deleted: true,
        }],
        ..Default::default()
    };
    assert_eq!(
        process(&mut world, &del_event),
        ProcessResult::Skipped { reason: "record already deleted".into() }
    );
    assert!(world.deleted_records.is_empty());
}

#[test]
fn deletion_without_e_tag_and_unsupported_kinds_are_skipped() {
    let event = make_signed_event(5, "", vec![]);
    let mut world = World { links: vec![account_for(&event.pubkey)], ..Default::default() };
    assert_eq!(
        process(&mut world, &event),
        ProcessResult::Skipped { reason: "deletion event has no 'e' tag".into() }
    );
    let event = make_signed_event(1, "note", vec![]);
    let mut world = World { links: vec![account_for(&event.pubkey)], ..Default::default() };
    assert_eq!(process(&mut world, &event), ProcessResult::Skipped { reason: "unsupported event kind: 1".into() });
}

#[test]
fn video_without_url_is_an_error() {
    let event = make_signed_event(34236, "", vec![vec!["d".into(), "x".into()]]);
    let mut world = World { links: vec![account_for(&event.pubkey)], ..Default::default() };
    assert_eq!(process(&mut world, &event), ProcessResult::Error { message: "no video URL found in event".into() });
}

#[test]
fn outside_failures_become_errors_with_their_cause() {
    let event = make_video_event();
    let (state, _) = pipeline_step(&event, PipelineState::Verifying, PipelineInput::Start);
    let (_, action) =
        pipeline_step(&event, state, PipelineInput::AccountLinkLoaded { lookup: Err("db down".into()) });
    match action {
        PipelineAction::Finish { result } => {
            assert_eq!(result, ProcessResult::Error { message: "failed to look up account link: db down".into() })
        }
        _ => panic!("expected Finish"),
    }
}

#[test]
fn pipeline_holds_its_collaborators() {
    let p = BridgePipeline::new(1u8, 2u16, 3u32, 4u64, "pds");
    assert_eq!((p.account_store, p.record_store, p.blob_fetcher, p.blob_uploader, p.pds_publisher), (1, 2, 3, 4, "pds"));
}
