use divine_sky::legacy_repair::{
    check_candidates, confirm_start, confirmation_digest, finish_confirm, is_lower_hex_64, normalise_filter,
    rollback_result, rollback_start, same_before_images, sanitize_job, sanitized_before_images, validate_request, ConfirmStart,
    LegacyBadJwtRepairFilter, LegacyRepairJobSnapshot, LegacyRepairService, PersistedScope, RepairActionRecord,
    BADJWT_SIGNATURE_ERROR, MAX_REPAIR_LIMIT,
};
use sha2::{Digest, Sha256};

fn hex64(c: char) -> String {
    std::iter::repeat(c).take(64).collect()
}

fn filter() -> LegacyBadJwtRepairFilter {
    LegacyBadJwtRepairFilter {
        nostr_pubkey: hex64('a'),
        event_ids: vec![hex64('c'), hex64('b'), hex64('c')],
        exact_error: None,
        after_event_id: None,
        limit: 10,
    }
}

fn action(status: &str) -> RepairActionRecord {
    RepairActionRecord {
        operation_id: "op-1".into(),
        confirmation_digest: "digest".into(),
        changed_count: 2,
        status: status.into(),
    }
}

#[test]
fn repair_requests_are_checked_in_order() {
    assert_eq!(validate_request("ops@divine", &filter()), Ok(()));
    assert_eq!(validate_request("  ", &filter()), Err("actor is required".into()));
    let bad_key = LegacyBadJwtRepairFilter { nostr_pubkey: hex64('A'), ..filter() };
    assert_eq!(validate_request("x", &bad_key), Err("nostr pubkey must be 64 lowercase hex characters".into()));
    let zero = LegacyBadJwtRepairFilter { limit: 0, ..filter() };
    assert_eq!(validate_request("x", &zero), Err("repair limit must be between 1 and 1000".into()));
    let too_many = LegacyBadJwtRepairFilter { limit: MAX_REPAIR_LIMIT + 1, ..filter() };
    assert_eq!(validate_request("x", &too_many), Err("repair limit must be between 1 and 1000".into()));
    let neither = LegacyBadJwtRepairFilter { event_ids: vec![], ..filter() };
    assert_eq!(validate_request("x", &neither), Err("event IDs or exact BadJwt mode are required".into()));
    let both = LegacyBadJwtRepairFilter { exact_error: Some(BADJWT_SIGNATURE_ERROR.into()), ..filter() };
    assert_eq!(
        validate_request("x", &both),
        Err("explicit event IDs cannot be combined with BadJwt class mode".into())
    );
    let bad_id = LegacyBadJwtRepairFilter { event_ids: vec!["xyz".into()], ..filter() };
    assert_eq!(validate_request("x", &bad_id), Err("event IDs must be 64 lowercase hex characters".into()));
    let bad_after = LegacyBadJwtRepairFilter { after_event_id: Some("1".into()), ..filter() };
    assert_eq!(validate_request("x", &bad_after), Err("after event ID must be 64 lowercase hex characters".into()));
    let class = LegacyBadJwtRepairFilter { event_ids: vec![], exact_error: Some("BadJwt: other".into()), ..filter() };
    assert_eq!(validate_request("x", &class), Err("only the exact allowlisted BadJwt error is accepted".into()));
    let class_ok = LegacyBadJwtRepairFilter { event_ids: vec![], exact_error: Some(BADJWT_SIGNATURE_ERROR.into()), ..filter() };
    assert_eq!(validate_request("x", &class_ok), Ok(()));
}

#[test]
fn filters_sort_and_dedup_their_event_ids() {
    let f = normalise_filter(filter());
    assert_eq!(f.event_ids, vec![hex64('b'), hex64('c')]);
    assert_eq!(f.limit, 10);
    assert!(is_lower_hex_64(&hex64('f')));
    assert!(!is_lower_hex_64(&hex64('g')));
    assert!(!is_lower_hex_64("abc"));
}

#[test]
fn digests_and_sanitised_snapshots_hash_with_sha256() {
    let job = LegacyRepairJobSnapshot {
        nostr_event_id: hex64('1'),
        state: "failed".into(),
        attempt: 3,
        error: Some(BADJWT_SIGNATURE_ERROR.into()),
        lease_owner: Some("worker-1".into()),
        lease_expires_at: Some(9),
        completed_at: None,
        updated_at: 10,
    };
    let s = sanitize_job(&job);
    assert_eq!(s.error_sha256, hex::encode(Sha256::digest(BADJWT_SIGNATURE_ERROR.as_bytes())));
    assert!(s.lease_owner_present);
    assert_eq!((s.attempt, s.lease_expires_at, s.completed_at, s.updated_at), (3, Some(9), None, 10));
    let no_error = LegacyRepairJobSnapshot { error: None, lease_owner: None, ..job };
    let images = sanitized_before_images(&vec![no_error]);
    assert_eq!(images[0].error_sha256, hex::encode(Sha256::digest(b"")));
    assert!(!images[0].lease_owner_present);
}

#[test]
fn confirmation_digest_hashes_the_compact_sorted_document() {
    let job = LegacyRepairJobSnapshot {
        nostr_event_id: "e1".into(),
        state: "failed".into(),
        attempt: 3,
        error: Some(BADJWT_SIGNATURE_ERROR.into()),
        lease_owner: Some("worker-1".into()),
        lease_expires_at: None,
        completed_at: Some(1_700_000_000_000_000),
        updated_at: 1_700_000_000_123_000,
    };
    let images = sanitized_before_images(&vec![job]);
    let scope = PersistedScope {
        nostr_pubkey: "pk".into(),
        event_ids: vec!["e1".into()],
        exact_error: None,
        after_event_id: None,
        limit: 100,
        matched_event_ids: vec!["e1".into()],
    };
    let error_sha = hex::encode(Sha256::digest(BADJWT_SIGNATURE_ERROR.as_bytes()));
    let canonical = format!(
        r#"{{"actor":"a","before_images":[{{"attempt":3,"completed_at":"2023-11-14T22:13:20Z","error_sha256":"{error_sha}","lease_expires_at":null,"lease_owner_present":true,"nostr_event_id":"e1","state":"failed","updated_at":"2023-11-14T22:13:20.123Z"}}],"operation_id":"op","scope":{{"after_event_id":null,"event_ids":["e1"],"exact_error":null,"limit":100,"matched_event_ids":["e1"],"nostr_pubkey":"pk"}}}}"#
    );
    assert_eq!(
        confirmation_digest("op", "a", &scope, &images),
        Some(hex::encode(Sha256::digest(canonical.as_bytes())))
    );
    assert_eq!(
        confirmation_digest("op", "a", &scope, &vec![]),
        Some(hex::encode(Sha256::digest(
            br#"{"actor":"a","before_images":[],"operation_id":"op","scope":{"after_event_id":null,"event_ids":["e1"],"exact_error":null,"limit":100,"matched_event_ids":["e1"],"nostr_pubkey":"pk"}}"#
        )))
    );
    let mut kept = sanitized_before_images(&vec![]);
    assert!(same_before_images(&kept, &vec![]));
    kept = images;
    assert!(!same_before_images(&kept, &vec![]));
}

#[test]
fn confirm_checks_digest_and_status() {
    assert_eq!(confirm_start(action("previewed"), "other").err().unwrap(), "confirmation digest does not match preview");
    assert!(matches!(confirm_start(action("previewed"), "digest"), Ok(ConfirmStart::Proceed)));
    match confirm_start(action("applied"), "digest") {
        Ok(ConfirmStart::AlreadyApplied { result }) => {
            assert_eq!((result.changed_count, result.skipped_count, result.status.as_str()), (2, 0, "applied"))
        }
        _ => panic!("expected the applied result"),
    }
    assert_eq!(confirm_start(action("rolled_back"), "digest").err().unwrap(), "operation is not confirmable");
    let ids = vec![hex64('b')];
    assert_eq!(check_candidates("d", "d", &ids, &ids.clone(), true), Ok(()));
    assert_eq!(check_candidates("d", "e", &ids, &ids.clone(), true), Err("confirmation digest no longer matches candidates".into()));
    assert_eq!(check_candidates("d", "d", &ids, &vec![], true), Err("repair candidates changed after preview".into()));
    assert_eq!(check_candidates("d", "d", &ids, &ids.clone(), false), Err("repair candidates changed after preview".into()));
    let done = finish_confirm("op-1", 1, 1).ok().unwrap();
    assert_eq!((done.operation_id.as_str(), done.changed_count, done.status.as_str()), ("op-1", 1, "applied"));
    assert_eq!(finish_confirm("op-1", 0, 1).err().unwrap(), "repair changed fewer rows than previewed");
}

#[test]
fn rollback_reports_skipped_restores() {
    assert!(matches!(rollback_start(action("applied")), Ok(None)));
    assert_eq!(rollback_start(action("previewed")).err().unwrap(), "only an applied operation can be rolled back");
    let again = rollback_start(action("rolled_back")).ok().unwrap().unwrap();
    assert_eq!(again.status, "rolled_back");
    let r = rollback_result("op-1", &vec![1, 0, 1]);
    assert_eq!((r.changed_count, r.skipped_count, r.status.as_str()), (2, 1, "rollback_partial"));
    let r = rollback_result("op-1", &vec![1, 1]);
    assert_eq!((r.changed_count, r.skipped_count, r.status.as_str()), (2, 0, "rolled_back"));
    assert_eq!(LegacyRepairService::new("postgres://x".into()).database_url, "postgres://x");
}
