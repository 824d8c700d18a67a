use divine_sky::nostr::{
    frame_step, parse_relay_message, runtime_filter, FrameStep, NostrConsumer, NostrFilter, RelayMessage, RelayParseError,
};
use divine_sky::pipeline::ProcessResult;

fn sample_event_json(kind: u64, created_at: i64) -> String {
    format!(
        r#"{{"id":"abc123","pubkey":"deadbeef","created_at":{},"kind":{},"tags":[["d","video-1"]],"content":"hello","sig":"sig000"}}"#,
        created_at, kind
    )
}

#[test]
fn filter_serializes_correctly() {
    let filter = NostrFilter::nip71_video();
    let consumer = NostrConsumer::new("wss://relay.test".into());
    let req: serde_json::Value = serde_json::from_str(&consumer.build_req(&filter)).unwrap();
    let json = &req[2];
    assert_eq!(json["kinds"], serde_json::Value::from(vec![34235u64, 34236, 5]));
    // Optional fields should be absent
    assert!(json.get("authors").is_none());
    assert!(json.get("since").is_none());
}

#[test]
fn filter_with_since_serializes() {
    let filter = NostrFilter { kinds: vec![34235], authors: None, since: Some(1700000000) };
    let consumer = NostrConsumer::new("wss://relay.test".into());
    let req: serde_json::Value = serde_json::from_str(&consumer.build_req(&filter)).unwrap();
    assert_eq!(req[2]["since"], serde_json::Value::from(1700000000i64));
    let with_authors = NostrFilter { kinds: vec![1], authors: Some(vec!["ab".into()]), since: None };
    assert_eq!(consumer.build_req(&with_authors), r#"["REQ","divine-bridge-0",{"authors":["ab"],"kinds":[1]}]"#);
}

#[test]
fn parse_event_message() {
    let raw = format!(r#"["EVENT","sub1",{}]"#, sample_event_json(34235, 1700000000));
    let msg = parse_relay_message(&raw).unwrap();
    match msg {
        RelayMessage::Event { subscription_id, event } => {
            assert_eq!(subscription_id, "sub1");
            assert_eq!(event.kind, 34235);
            assert_eq!(event.created_at, 1700000000);
            assert_eq!(event.id, "abc123");
            assert_eq!(event.tags, vec![vec!["d".to_string(), "video-1".to_string()]]);
        }
        other => panic!("expected Event, got {:?}", other),
    }
}

#[test]
fn parse_eose_message() {
    let raw = r#"["EOSE","sub1"]"#;
    let msg = parse_relay_message(raw).unwrap();
    assert_eq!(msg, RelayMessage::Eose { subscription_id: "sub1".into() });
}

#[test]
fn parse_invalid_json_returns_error() {
    assert!(parse_relay_message("not json").is_err());
    assert_eq!(parse_relay_message("not json"), Err(RelayParseError::InvalidJson));
}

#[test]
fn parse_empty_array_returns_error() {
    assert!(parse_relay_message("[]").is_err());
    assert_eq!(parse_relay_message("[]"), Err(RelayParseError::MissingType));
}

#[test]
fn parse_unknown_type_returns_unknown() {
    let raw = r#"["OK","sub1",true,""]"#;
    let msg = parse_relay_message(raw).unwrap();
    assert!(matches!(msg, RelayMessage::Unknown(_)));
    assert_eq!(msg, RelayMessage::Unknown(raw.to_string()));
}

#[test]
fn relay_frame_errors_name_what_is_missing() {
    assert_eq!(parse_relay_message(r#"{"a":1}"#), Err(RelayParseError::NotArray));
    assert_eq!(parse_relay_message(r#"["EVENT"]"#), Err(RelayParseError::MissingSubscriptionId));
    assert_eq!(parse_relay_message(r#"["EVENT","s"]"#), Err(RelayParseError::MissingEvent));
    assert_eq!(parse_relay_message(r#"["EVENT","s",{"id":"x"}]"#), Err(RelayParseError::InvalidEvent));
    assert_eq!(parse_relay_message(r#"["EOSE"]"#), Err(RelayParseError::MissingEoseSubscriptionId));
    assert_eq!(parse_relay_message(r#"[7]"#), Err(RelayParseError::MissingType));
    assert_eq!(RelayParseError::InvalidJson.message(), "invalid JSON from relay");
    assert_eq!(RelayParseError::MissingEoseSubscriptionId.message(), "missing subscription id in EOSE");
}

#[test]
fn notice_carries_its_text_or_nothing() {
    assert_eq!(parse_relay_message(r#"["NOTICE","slow down"]"#), Ok(RelayMessage::Notice("slow down".into())));
    assert_eq!(parse_relay_message(r#"["NOTICE"]"#), Ok(RelayMessage::Notice(String::new())));
}

#[test]
fn event_with_negative_kind_is_invalid() {
    let raw = r#"["EVENT","s",{"id":"a","pubkey":"b","created_at":1,"kind":-1,"tags":[],"content":"","sig":"c"}]"#;
    assert_eq!(parse_relay_message(raw), Err(RelayParseError::InvalidEvent));
    let raw = r#"["EVENT","s",{"id":"a","pubkey":"b","created_at":1,"kind":1,"tags":[[1]],"content":"","sig":"c"}]"#;
    assert_eq!(parse_relay_message(raw), Err(RelayParseError::InvalidEvent));
}

#[test]
fn build_req_includes_since_on_reconnect() {
    let mut consumer = NostrConsumer::new("wss://relay.test".into());
    let filter = NostrFilter::nip71_video();

    let req1 = consumer.build_req(&filter);
    let v1: serde_json::Value = serde_json::from_str(&req1).unwrap();
    assert!(v1[2].get("since").is_none());
    assert_eq!(v1[0], "REQ");

    consumer.last_seen_timestamp = Some(1700000000);

    let req2 = consumer.build_req(&filter);
    let v2: serde_json::Value = serde_json::from_str(&req2).unwrap();
    assert_eq!(v2[2]["since"], serde_json::Value::from(1700000000i64));
    assert_eq!(req2, r#"["REQ","divine-bridge-0",{"kinds":[34235,34236,5],"since":1700000000}]"#);
}

#[test]
fn cursor_moves_only_on_acknowledged_events() {
    let mut consumer = NostrConsumer::new("wss://relay.test".into());
    assert_eq!(consumer.subscription_id(), "divine-bridge-0");
    assert!(consumer.record_event_outcome(100, Ok(())).is_ok());
    assert_eq!(consumer.last_seen_timestamp, Some(100));
    let err = consumer.record_event_outcome(200, Err("boom".into())).unwrap_err();
    assert_eq!(err, "event processing callback failed: boom");
    assert_eq!(consumer.last_seen_timestamp, Some(100));
}

#[test]
fn pipeline_errors_do_not_move_the_cursor() {
    let mut consumer = NostrConsumer::new("wss://relay.test".into());
    consumer.record_process_result(50, &ProcessResult::Error { message: "x".into() });
    assert_eq!(consumer.last_seen_timestamp, None);
    consumer.record_process_result(60, &ProcessResult::Skipped { reason: "y".into() });
    assert_eq!(consumer.last_seen_timestamp, Some(60));
}

#[test]
fn runtime_filter_covers_profiles_deletions_and_videos() {
    let f = runtime_filter();
    assert_eq!(f.kinds, vec![0, 5, 34235, 34236]);
    assert!(f.authors.is_none() && f.since.is_none());
}

/// Feed frames to the library's frame step as a session does, answering
/// each delivered event with `on_event`. Returns the `REQ` that opened it.
fn run_session(
    consumer: &mut NostrConsumer,
    filter: &NostrFilter,
    messages: Vec<String>,
    mut on_event: impl FnMut(divine_sky::event::NostrEvent) -> Result<(), String>,
) -> Result<String, String> {
    let req = consumer.build_req(filter);
    for raw in messages {
        if let FrameStep::Deliver { event } = frame_step(&raw) {
            let created_at = event.created_at;
            consumer.record_event_outcome(created_at, on_event(event))?;
        }
    }
    Ok(req)
}

#[test]
fn subscribe_processes_events_and_tracks_cursor() {
    let messages = vec![
        format!(r#"["EVENT","divine-bridge-0",{}]"#, sample_event_json(34235, 1000)),
        r#"["EOSE","divine-bridge-0"]"#.to_string(),
        format!(r#"["EVENT","divine-bridge-0",{}]"#, sample_event_json(34236, 2000)),
    ];
    let mut consumer = NostrConsumer::new("wss://relay.test".into());
    let filter = NostrFilter::nip71_video();
    let mut received = Vec::new();
    let req = run_session(&mut consumer, &filter, messages, |ev| {
        received.push(ev);
        Ok(())
    })
    .unwrap();

    assert_eq!(received.len(), 2);
    assert_eq!(received[0].kind, 34235);
    assert_eq!(received[1].kind, 34236);
    assert_eq!(consumer.last_seen_timestamp, Some(2000));
    assert_eq!(consumer.subscription_id(), "divine-bridge-0");
    let v: serde_json::Value = serde_json::from_str(&req).unwrap();
    assert_eq!(v[0], "REQ");
}

#[test]
fn subscribe_skips_invalid_messages() {
    let messages = vec![
        "not valid json".to_string(),
        r#"["UNKNOWN_TYPE"]"#.to_string(),
        format!(r#"["EVENT","divine-bridge-0",{}]"#, sample_event_json(5, 3000)),
    ];
    let mut consumer = NostrConsumer::new("wss://relay.test".into());
    let filter = NostrFilter::nip71_video();
    let mut received = Vec::new();
    run_session(&mut consumer, &filter, messages, |ev| {
        received.push(ev);
        Ok(())
    })
    .unwrap();

    assert_eq!(received.len(), 1);
    assert_eq!(received[0].kind, 5);
}
