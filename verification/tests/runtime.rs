use divine_sky::event::NostrEvent;
use divine_sky::funnelcake::VideoEventsPage;
use divine_sky::health::{status_for_error, RuntimeHealthState, DEGRADED_FAILURE_THRESHOLD};
use divine_sky::runtime::{
    account_link_from_lifecycle_row, apply_ingest_outcome, apply_worker_outcome, cold_start_outcome,
    next_page_before, page_budget, poll_interval_secs, scan_page, select_new_events, take_page, worker_interval_millis,
    worker_result, AccountLinkLifecycleRow, PublishJobSource, RestIngestOutcome, WorkerRunResult,
};

fn sample_event(id: &str, created_at: i64) -> NostrEvent {
    NostrEvent {
        id: id.to_string(),
        pubkey: "pubkey".to_string(),
        created_at,
        kind: 34236,
        tags: vec![],
        content: String::new(),
        sig: "sig".to_string(),
    }
}

#[test]
fn select_new_events_filters_dedups_and_sorts_oldest_first() {
    let events = vec![
        sample_event("c", 30),
        sample_event("a", 10),
        sample_event("b", 20),
        sample_event("a", 10),
        sample_event("old", 5),
    ];
    let out = select_new_events(events, Some(10));
    let ids: Vec<&str> = out.iter().map(|e| e.id.as_str()).collect();
    assert_eq!(ids, vec!["b", "c"]);
}

#[test]
fn select_new_events_without_cursor_keeps_all_sorted() {
    let out = select_new_events(vec![sample_event("c", 30), sample_event("a", 10), sample_event("b", 20)], None);
    let ids: Vec<&str> = out.iter().map(|e| e.id.as_str()).collect();
    assert_eq!(ids, vec!["a", "b", "c"]);
}

#[test]
fn selection_orders_equal_times_by_id_and_keeps_the_first_copy() {
    let mut first = sample_event("x", 7);
    first.content = "first".into();
    let mut second = sample_event("x", 7);
    second.content = "second".into();
    let out = select_new_events(vec![sample_event("z", 7), first, sample_event("y", 7), second], None);
    let ids: Vec<&str> = out.iter().map(|e| e.id.as_str()).collect();
    assert_eq!(ids, vec!["x", "y", "z"]);
    assert_eq!(out[0].content, "first");
    assert!(select_new_events(vec![], Some(1)).is_empty());
}

#[test]
fn scanning_pages_tracks_the_newest_event_and_the_cursor() {
    let mut newest = None;
    let page = vec![sample_event("b", 20), sample_event("c", 30), sample_event("d", 30)];
    assert!(!scan_page(&mut newest, &page, Some(10)));
    assert_eq!(newest, Some((30, "c".to_string())));
    assert!(scan_page(&mut newest, &vec![sample_event("a", 10)], Some(10)));
    assert_eq!(newest, Some((30, "c".to_string())));
    assert!(!scan_page(&mut newest, &vec![sample_event("a", 10)], None));
    assert_eq!(next_page_before(false, false, true, Some(9)), Some(9));
    assert_eq!(next_page_before(true, false, true, Some(9)), None);
    assert_eq!(next_page_before(false, true, true, Some(9)), None);
    assert_eq!(next_page_before(false, false, false, Some(9)), None);
    assert_eq!(cold_start_outcome(&newest), RestIngestOutcome { processed: 0, cold_start_seeded: true });
    assert_eq!(cold_start_outcome(&None), RestIngestOutcome { processed: 0, cold_start_seeded: false });
    assert_eq!(page_budget(0), 1);
    assert_eq!(page_budget(4), 4);
    assert_eq!(poll_interval_secs(0), 1);
    assert_eq!(poll_interval_secs(15), 15);
}

#[test]
fn worker_outcomes_feed_health() {
    let mut health = RuntimeHealthState::new();
    assert_eq!(worker_result("e1".into(), Ok(())), WorkerRunResult::Completed { nostr_event_id: "e1".into() });
    let failed = worker_result("e2".into(), Err("pds down".into()));
    assert_eq!(apply_worker_outcome(&mut health, Ok(failed)), None);
    assert_eq!(health.last_error.as_deref(), Some("pds down"));
    assert_eq!(health.consecutive_readiness_failures, 0);
    assert_eq!(apply_worker_outcome(&mut health, Err("db gone".into())), Some(2));
    assert_eq!(apply_worker_outcome(&mut health, Err("db gone".into())), Some(4));
    assert_eq!(apply_worker_outcome(&mut health, Err("db gone".into())), Some(8));
    assert_eq!(health.consecutive_readiness_failures, DEGRADED_FAILURE_THRESHOLD);
    assert!(!health.is_ready());
    assert_eq!(apply_worker_outcome(&mut health, Ok(WorkerRunResult::Idle)), None);
    assert!(!health.is_ready());
    apply_ingest_outcome(&mut health, Ok(RestIngestOutcome { processed: 3, cold_start_seeded: false }));
    assert!(health.is_ready());
    assert_eq!(health.last_error, None);
    apply_ingest_outcome(&mut health, Err("relay".into()));
    assert_eq!(health.consecutive_readiness_failures, 1);
}

#[test]
fn retry_delay_doubles_up_to_thirty_two_seconds() {
    let mut health = RuntimeHealthState::new();
    assert_eq!(health.next_retry_delay(), 2);
    for _ in 0..10 {
        health.record_runtime_failure("x".into());
    }
    assert_eq!(health.next_retry_delay(), 32);
}

#[test]
fn lanes_and_their_intervals() {
    assert_eq!(PublishJobSource::Live.as_str(), "live");
    assert_eq!(PublishJobSource::Backfill.as_str(), "backfill");
    assert_eq!(worker_interval_millis(PublishJobSource::Live), 250);
    assert_eq!(worker_interval_millis(PublishJobSource::Backfill), 1000);
}

#[test]
fn only_ready_enabled_crossposting_links_are_used() {
    let row = AccountLinkLifecycleRow {
        nostr_pubkey: "pk".into(),
        did: Some("did:plc:x".into()),
        crosspost_enabled: true,
        provisioning_state: "ready".into(),
        disabled_at: None,
    };
    let link = account_link_from_lifecycle_row(&row).unwrap();
    assert_eq!((link.nostr_pubkey.as_str(), link.did.as_str(), link.opted_in), ("pk", "did:plc:x", true));
    let pending = AccountLinkLifecycleRow { provisioning_state: "pending".into(), ..row_clone(&row) };
    assert!(account_link_from_lifecycle_row(&pending).is_none());
    let disabled = AccountLinkLifecycleRow { disabled_at: Some(5), ..row_clone(&row) };
    assert!(account_link_from_lifecycle_row(&disabled).is_none());
    let no_did = AccountLinkLifecycleRow { did: None, ..row_clone(&row) };
    assert!(account_link_from_lifecycle_row(&no_did).is_none());
    let off = AccountLinkLifecycleRow { crosspost_enabled: false, ..row_clone(&row) };
    assert!(account_link_from_lifecycle_row(&off).is_none());
}

fn row_clone(r: &AccountLinkLifecycleRow) -> AccountLinkLifecycleRow {
    AccountLinkLifecycleRow {
        nostr_pubkey: r.nostr_pubkey.clone(),
        did: r.did.clone(),
        crosspost_enabled: r.crosspost_enabled,
        provisioning_state: r.provisioning_state.clone(),
        disabled_at: r.disabled_at,
    }
}

#[test]
fn provisioning_errors_map_to_status_codes() {
    assert_eq!(status_for_error("handle already taken: alice.divine.video"), 409);
    assert_eq!(status_for_error("existing link is bound to a different handle"), 409);
    assert_eq!(status_for_error("account link is disabled"), 409);
    assert_eq!(status_for_error("handle must end with .divine.video"), 400);
    assert_eq!(status_for_error("handle must include a username"), 400);
    assert_eq!(status_for_error("creating account on PDS"), 500);
}

#[test]
fn readiness_is_lost_on_the_third_relay_failure() {
    let mut s = RuntimeHealthState::new();
    for k in 1..=5u32 {
        s.record_relay_failure("e".to_string());
        assert_eq!(s.is_ready(), k < 3, "after {k} failures");
        assert_eq!(s.consecutive_readiness_failures, k);
    }
    s.record_success();
    assert!(s.is_ready());
}

#[test]
fn an_empty_page_ends_paging_and_a_full_one_moves_on() {
    let mut newest = Some((5, "old".to_string()));
    let empty = VideoEventsPage { events: vec![], next_cursor: Some(1), has_more: true };
    assert_eq!(take_page(&mut newest, &empty, Some(3), false), None);
    assert_eq!(newest, Some((5, "old".to_string())));
    let page = VideoEventsPage { events: vec![sample_event("n", 9), sample_event("m", 7)], next_cursor: Some(7), has_more: true };
    assert_eq!(take_page(&mut newest, &page, Some(3), false), Some(7));
    assert_eq!(newest, Some((9, "n".to_string())));
    assert_eq!(take_page(&mut newest, &page, Some(8), false), None);
    assert_eq!(take_page(&mut newest, &page, None, true), None);
}
