use divine_sky::funnelcake::{
    i64_to_decimal, parse_i64, video_events_endpoint, video_events_failure, video_events_page, video_events_query,
};
use divine_sky::json::{JsonNumber, JsonValue};

fn convert(v: serde_json::Value) -> JsonValue {
    match v {
        serde_json::Value::Null => JsonValue::Null,
        serde_json::Value::Bool(b) => JsonValue::Bool(b),
        serde_json::Value::Number(n) => JsonValue::Number(match (n.as_u64(), n.as_i64()) {
            (Some(u), _) => JsonNumber::Unsigned(u),
            (None, Some(i)) => JsonNumber::Signed(i),
            _ => JsonNumber::Float,
        }),
        serde_json::Value::String(s) => JsonValue::String(s),
        serde_json::Value::Array(a) => JsonValue::Array(a.into_iter().map(convert).collect()),
        serde_json::Value::Object(o) => JsonValue::Object(o.into_iter().map(|(k, x)| (k, convert(x))).collect()),
    }
}

fn json(text: &str) -> JsonValue {
    convert(serde_json::from_str(text).unwrap())
}

fn pairs(q: &[(String, String)]) -> Vec<(&str, &str)> {
    q.iter().map(|(k, v)| (k.as_str(), v.as_str())).collect()
}

#[test]
fn fetch_video_events_parses_events_and_cursor() {
    assert_eq!(video_events_endpoint("http://127.0.0.1:1234/"), "http://127.0.0.1:1234/videos/events");
    let q = video_events_query(34236, Some(1700000100), 50);
    assert_eq!(pairs(&q), vec![("sort", "recent"), ("kind", "34236"), ("limit", "50"), ("before", "1700000100")]);

    let body = format!(
        r#"{{"videos":[
            {{"event":{{"id":"{a}","pubkey":"{b}","created_at":1700000050,"kind":34236,"tags":[["d","vid1"]],"content":"hi","sig":"{c}"}}}},
            {{"event":{{"id":"{d}","pubkey":"{e}","created_at":1700000010,"kind":34236,"tags":[],"content":"yo","sig":"{f}"}}}}
        ],"next_cursor":"1700000000","has_more":true}}"#,
        a = "a".repeat(64),
        b = "b".repeat(64),
        c = "c".repeat(128),
        d = "d".repeat(64),
        e = "e".repeat(64),
        f = "f".repeat(128)
    );
    let page = video_events_page(&json(&body)).expect("page should parse");
    assert_eq!(page.events.len(), 2);
    assert_eq!(page.events[0].id, "a".repeat(64));
    assert_eq!(page.events[0].created_at, 1700000050);
    assert_eq!(page.events[0].tags, vec![vec!["d".to_string(), "vid1".to_string()]]);
    assert_eq!(page.events[1].content, "yo");
    assert_eq!(page.next_cursor, Some(1700000000));
    assert!(page.has_more);
}

#[test]
fn fetch_video_events_accepts_numeric_cursor_and_missing_fields() {
    let q = video_events_query(34235, None, 100);
    assert_eq!(pairs(&q), vec![("sort", "recent"), ("kind", "34235"), ("limit", "100")]);
    let page = video_events_page(&json(r#"{"videos":[],"next_cursor":1699999000,"has_more":false}"#))
        .expect("page should parse");
    assert!(page.events.is_empty());
    assert_eq!(page.next_cursor, Some(1699999000));
    assert!(!page.has_more);
    let empty = video_events_page(&json("{}")).unwrap();
    assert!(empty.events.is_empty() && empty.next_cursor.is_none() && !empty.has_more);
    assert_eq!(video_events_page(&json(r#"{"next_cursor":null}"#)).unwrap().next_cursor, None);
    assert_eq!(video_events_page(&json(r#"{"next_cursor":" -42 "}"#)).unwrap().next_cursor, Some(-42));
}

#[test]
fn unreadable_pages_are_refused() {
    assert!(video_events_page(&json("[]")).is_none());
    assert!(video_events_page(&json(r#"{"videos":null}"#)).is_none());
    assert!(video_events_page(&json(r#"{"videos":[1]}"#)).is_none());
    assert!(video_events_page(&json(r#"{"videos":[{}]}"#)).is_none());
    assert!(video_events_page(&json(r#"{"videos":[{"event":{"id":"x"}}]}"#)).is_none());
    assert!(video_events_page(&json(r#"{"next_cursor":"soon"}"#)).is_none());
    assert!(video_events_page(&json(r#"{"next_cursor":1.5}"#)).is_none());
    assert!(video_events_page(&json(r#"{"next_cursor":18446744073709551615}"#)).is_none());
    assert!(video_events_page(&json(r#"{"has_more":"yes"}"#)).is_none());
    assert_eq!(video_events_failure(502, "bad gateway"), "videos/events failed (502): bad gateway");
}

#[test]
fn integers_parse_and_print_like_std() {
    for text in ["0", "-0", "+7", "42", "-9223372036854775808", "9223372036854775807"] {
        assert_eq!(parse_i64(text), text.parse::<i64>().ok(), "{text}");
    }
    for text in ["", "-", "+", "9223372036854775808", "-9223372036854775809", "1a", " 1", "--1"] {
        assert_eq!(parse_i64(text), None, "{text}");
    }
    for n in [0i64, 7, -7, i64::MIN, i64::MAX, 1700000000] {
        assert_eq!(i64_to_decimal(n), n.to_string());
    }
}
