use divine_sky::deletion::{
    deletion_step, validate_delete_request, DeleteRequestError, DeletionAction, DeletionError, DeletionInput,
    DeletionState, RecordMapping,
};
use divine_sky::event::NostrEvent;

fn make_mapping(event_id: &str) -> RecordMapping {
    RecordMapping {
        nostr_event_id: event_id.to_string(),
        at_uri: format!("at://did:plc:abc123/app.bsky.feed.post/{}", event_id),
        did: "did:plc:abc123".to_string(),
        collection: "app.bsky.feed.post".to_string(),
        rkey: event_id.to_string(),
        status: "published".to_string(),
    }
}

fn make_deletion_event(target: &str) -> NostrEvent {
    NostrEvent {
        id: "del-1".to_string(),
        pubkey: "pk".to_string(),
        created_at: 1700000100,
        kind: 5,
        tags: vec![vec!["e".to_string(), target.to_string()]],
        content: String::new(),
        sig: "sig".to_string(),
    }
}

#[derive(Default)]
struct Store {
    mappings: Vec<RecordMapping>,
    deleted: Vec<(String, String, String)>,
    updated: Vec<(String, String)>,
    delete_fails: bool,
}

fn handle(store: &mut Store, event: &NostrEvent) -> Result<(), DeletionError> {
    let mut state = DeletionState::Start;
    let mut input = DeletionInput::Begin;
    loop {
        let (next, action) = deletion_step(event, state, input);
        state = next;
        input = match action {
            DeletionAction::Finish { result } => return result,
            DeletionAction::LookUpMapping { event_id } => DeletionInput::MappingFound {
                found: Ok(store.mappings.iter().find(|m| m.nostr_event_id == event_id).map(|m| RecordMapping {
                    nostr_event_id: m.nostr_event_id.clone(),
                    at_uri: m.at_uri.clone(),
                    did: m.did.clone(),
                    collection: m.collection.clone(),
                    rkey: m.rkey.clone(),
                    status: m.status.clone(),
                })),
            },
            DeletionAction::DeleteRecord { did, collection, rkey } => {
                if store.delete_fails {
                    DeletionInput::RecordDeleted { result: Err("deleteRecord failed (500): boom".into()) }
                } else {
                    store.deleted.push((did, collection, rkey));
                    DeletionInput::RecordDeleted { result: Ok(()) }
                }
            }
            DeletionAction::UpdateStatus { event_id, status } => {
                store.updated.push((event_id, status));
                DeletionInput::StatusUpdated { result: Ok(()) }
            }
        };
    }
}

#[test]
fn deletion_handler_looks_up_mapping_and_calls_delete() {
    let mut store = Store { mappings: vec![make_mapping("original-event-123")], ..Default::default() };
    handle(&mut store, &make_deletion_event("original-event-123")).unwrap();
    assert_eq!(
        store.deleted,
        vec![("did:plc:abc123".to_string(), "app.bsky.feed.post".to_string(), "original-event-123".to_string())]
    );
    assert_eq!(store.updated.len(), 1);
    assert_eq!(store.updated[0].0, "original-event-123");
    assert_eq!(store.updated[0].1, "deleted");
}

#[test]
fn deletion_handler_returns_error_when_no_e_tag() {
    let mut store = Store::default();
    let mut event = make_deletion_event("x");
    event.tags = vec![];
    let err = handle(&mut store, &event).unwrap_err();
    assert!(err.message().contains("no 'e' tag"));
}

#[test]
fn deletion_handler_returns_error_when_no_mapping() {
    let mut store = Store::default();
    let err = handle(&mut store, &make_deletion_event("nonexistent-event")).unwrap_err();
    assert!(err.message().contains("no record mapping found"));
}

#[test]
fn deletion_handler_skips_already_deleted() {
    let mut mapping = make_mapping("already-deleted-event");
    mapping.status = "deleted".to_string();
    let mut store = Store { mappings: vec![mapping], ..Default::default() };
    handle(&mut store, &make_deletion_event("already-deleted-event")).unwrap();
    assert!(store.deleted.is_empty());
    assert!(store.updated.is_empty());
}

#[test]
fn failed_pds_delete_leaves_the_mapping_alone() {
    let mut store = Store { mappings: vec![make_mapping("t")], delete_fails: true, ..Default::default() };
    let err = handle(&mut store, &make_deletion_event("t")).unwrap_err();
    assert_eq!(err.message(), "failed to delete record from PDS: deleteRecord failed (500): boom");
    assert!(store.updated.is_empty());
}

#[test]
fn only_the_owner_may_delete() {
    assert_eq!(validate_delete_request("did:plc:a", "did:plc:a"), Ok(()));
    assert_eq!(validate_delete_request("did:plc:a", "did:plc:b"), Err(DeleteRequestError::NotOwner));
    assert_eq!(DeleteRequestError::NotOwner.message(), "deleting account does not own the target record");
}
