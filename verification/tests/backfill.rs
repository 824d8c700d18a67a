use divine_sky::backfill::order_history;
use divine_sky::event::NostrEvent;

fn event(id: &str, created_at: i64, content: &str) -> NostrEvent {
    NostrEvent {
        id: id.to_string(),
        pubkey: "pk".to_string(),
        created_at,
        kind: 34235,
        tags: vec![],
        content: content.to_string(),
        sig: "sig".to_string(),
    }
}

#[test]
fn history_replays_oldest_first_with_ties_by_id() {
    let out = order_history(vec![event("c", 30, ""), event("b", 10, ""), event("a", 10, ""), event("d", 5, "")]);
    let ids: Vec<&str> = out.iter().map(|e| e.id.as_str()).collect();
    assert_eq!(ids, vec!["d", "a", "b", "c"]);
}

#[test]
fn history_keeps_duplicates_in_arrival_order() {
    let out = order_history(vec![event("x", 2, "second copy"), event("x", 1, "older"), event("x", 2, "third copy")]);
    let contents: Vec<&str> = out.iter().map(|e| e.content.as_str()).collect();
    assert_eq!(contents, vec!["older", "second copy", "third copy"]);
    assert!(order_history(vec![]).is_empty());
}
