use divine_sky::json::{JsonNumber, JsonValue};
use divine_sky::xrpc::{
    access_token_is_usable, access_token_usable_at, at_uri, blob_ref_from_upload, check_validation_status,
    choose_auth_token, failure_message, is_remote_record_diverged, jwt_exp_epoch_secs, parse_xrpc_error,
    recover_reserved_record, resolve_failed_create, retry_with_refresh, token_after_refresh, xrpc_endpoint,
    AuthTokenChoice, CreateRecordResponse,
};

fn convert(v: serde_json::Value) -> JsonValue {
    match v {
        serde_json::Value::Null => JsonValue::Null,
        serde_json::Value::Bool(b) => JsonValue::Bool(b),
        serde_json::Value::Number(n) => JsonValue::Number(match (n.as_u64(), n.as_i64()) {
            (Some(u), _) => JsonNumber::Unsigned(u),
            (None, Some(i)) => JsonNumber::Signed(i),
            _ => JsonNumber::Float,
        }),
        serde_json::Value::String(s) => JsonValue::String(s),
        serde_json::Value::Array(a) => JsonValue::Array(a.into_iter().map(convert).collect()),
        serde_json::Value::Object(o) => JsonValue::Object(o.into_iter().map(|(k, x)| (k, convert(x))).collect()),
    }
}

fn json(text: &str) -> JsonValue {
    convert(serde_json::from_str(text).unwrap())
}

fn jwt_with_exp(exp: i64) -> String {
    let payload = data_encoding::BASE64URL_NOPAD.encode(format!("{{\"exp\":{}}}", exp).as_bytes());
    format!("header.{payload}.signature")
}

#[test]
fn expired_and_nearly_expired_tokens_are_not_usable() {
    let now = chrono::Utc::now().timestamp();
    assert!(!access_token_is_usable(&jwt_with_exp(now - 1)));
    assert!(!access_token_is_usable(&jwt_with_exp(now + 30)));
    assert!(access_token_is_usable(&jwt_with_exp(now + 3600)));
    assert!(access_token_is_usable("not-a-jwt"));
}

#[test]
fn token_headroom_is_strictly_more_than_sixty_seconds() {
    let token = jwt_with_exp(1_000);
    assert!(!access_token_usable_at(&token, 940));
    assert!(access_token_usable_at(&token, 939));
    assert_eq!(jwt_exp_epoch_secs(&token), Some(1_000));
    assert_eq!(jwt_exp_epoch_secs(&format!("{}==", token.rsplit_once('.').unwrap().0)), Some(1_000));
    assert_eq!(jwt_exp_epoch_secs("a.!!!.c"), None);
    assert_eq!(jwt_exp_epoch_secs("no-dots"), None);
    let no_exp = format!("h.{}.s", data_encoding::BASE64URL_NOPAD.encode(b"{\"sub\":\"x\"}"));
    assert_eq!(jwt_exp_epoch_secs(&no_exp), None);
    assert!(access_token_usable_at(&no_exp, i64::MAX));
}

#[test]
fn stored_session_tokens_are_preferred_and_refreshed_when_expiring() {
    match choose_auth_token("service", None, 0) {
        AuthTokenChoice::Use { token } => assert_eq!(token, "service"),
        _ => panic!("expected the default token"),
    }
    match choose_auth_token("service", Some(jwt_with_exp(10_000)), 0) {
        AuthTokenChoice::Use { token } => assert_eq!(token, jwt_with_exp(10_000)),
        _ => panic!("expected the stored token"),
    }
    match choose_auth_token("service", Some(jwt_with_exp(10)), 0) {
        AuthTokenChoice::RefreshFirst { stored } => assert_eq!(stored, jwt_with_exp(10)),
        _ => panic!("expected a refresh"),
    }
    assert_eq!(token_after_refresh("old".into(), Ok(Some("new".into()))), "new");
    assert_eq!(token_after_refresh("old".into(), Ok(None)), "old");
    assert_eq!(token_after_refresh("old".into(), Err("boom".into())), "old");
    assert!(retry_with_refresh(401, false));
    assert!(!retry_with_refresh(401, true));
    assert!(!retry_with_refresh(400, false));
}

#[test]
fn http_400_returns_error_with_detail() {
    let detail = parse_xrpc_error(r#"{"error":"InvalidRequest","message":"bad record"}"#);
    assert_eq!(detail, "InvalidRequest: bad record");
    assert_eq!(failure_message("createRecord", 400, &detail), "createRecord failed (400): InvalidRequest: bad record");
}

#[test]
fn xrpc_error_detail_falls_back_to_the_body() {
    assert_eq!(parse_xrpc_error(r#"{"error":"AuthRequired"}"#), "AuthRequired");
    assert_eq!(parse_xrpc_error(r#"{"message":"only message"}"#), "only message");
    assert_eq!(parse_xrpc_error(r#"{"error":"","message":""}"#), r#"{"error":"","message":""}"#);
    assert_eq!(parse_xrpc_error("internal error"), "internal error");
    assert_eq!(parse_xrpc_error(r#"{"error":5}"#), r#"{"error":5}"#);
}

#[test]
fn endpoints_and_uris() {
    assert_eq!(xrpc_endpoint("https://pds.example//", "com.atproto.repo.createRecord"), "https://pds.example/xrpc/com.atproto.repo.createRecord");
    assert_eq!(at_uri("did:plc:a", "app.bsky.feed.post", "k"), "at://did:plc:a/app.bsky.feed.post/k");
}

#[test]
fn reserved_create_recovers_matching_existing_record() {
    let response = json(r#"{"uri":"at://did:plc:a/app.bsky.feed.post/k","cid":"bafyrec","value":{"text":"hi"}}"#);
    let got = recover_reserved_record("did:plc:a", "app.bsky.feed.post", "k", &response, true).unwrap();
    assert_eq!(got.uri, "at://did:plc:a/app.bsky.feed.post/k");
    assert_eq!(got.cid, "bafyrec");
    assert_eq!(got.validation_status, None);
    let wrapped = json(r#"{"value":{"uri":"at://did:plc:a/app.bsky.feed.post/k","cid":"c2","value":{}}}"#);
    assert_eq!(recover_reserved_record("did:plc:a", "app.bsky.feed.post", "k", &wrapped, true).unwrap().cid, "c2");
}

#[test]
fn reserved_create_rejects_divergent_existing_record() {
    let response = json(r#"{"uri":"at://did:plc:a/app.bsky.feed.post/k","cid":"bafyrec","value":{"text":"other"}}"#);
    let err = recover_reserved_record("did:plc:a", "app.bsky.feed.post", "k", &response, false).unwrap_err();
    assert!(is_remote_record_diverged(&err));
    let moved = json(r#"{"uri":"at://did:plc:a/app.bsky.feed.post/other","cid":"c","value":{}}"#);
    let err = recover_reserved_record("did:plc:a", "app.bsky.feed.post", "k", &moved, true).unwrap_err();
    assert_eq!(err, "REMOTE_RECORD_DIVERGED: getRecord returned a different URI");
    let create_error = "createRecord failed (500): boom".to_string();
    assert_eq!(resolve_failed_create(create_error, Err(err.clone())), Err(err));
}

#[test]
fn reserved_create_preserves_original_error_when_recovery_misses() {
    let missing = json(r#"{"uri":"at://x/y/z"}"#);
    let err = recover_reserved_record("x", "y", "z", &missing, true).unwrap_err();
    assert_eq!(err, "getRecord response is missing record value");
    let create_error = "createRecord failed (500): boom".to_string();
    assert_eq!(resolve_failed_create(create_error.clone(), Err(err)), Err(create_error));
    let no_cid = json(r#"{"uri":"at://x/y/z","value":{}}"#);
    assert_eq!(recover_reserved_record("x", "y", "z", &no_cid, true).unwrap_err(), "getRecord response is missing CID");
}

#[test]
fn create_record_rejects_unknown_validation_status() {
    let unknown = CreateRecordResponse { uri: "u".into(), cid: "c".into(), validation_status: Some("unknown".into()) };
    assert_eq!(check_validation_status(unknown).unwrap_err(), "createRecord returned unknown validation status");
    let valid = CreateRecordResponse { uri: "u".into(), cid: "c".into(), validation_status: Some("valid".into()) };
    assert_eq!(check_validation_status(valid.clone()), Ok(valid));
}

#[test]
fn upload_blob_response_gives_the_blob_ref() {
    let r = json(r#"{"blob":{"$type":"blob","ref":{"$link":"bafkreiabc"},"mimeType":"image/png","size":99}}"#);
    let b = blob_ref_from_upload(&r).unwrap();
    assert_eq!((b.cid.as_str(), b.mime_type.as_str(), b.size), ("bafkreiabc", "image/png", 99));
    let no_ref = json(r#"{"blob":{"mimeType":"image/png","size":1}}"#);
    assert_eq!(blob_ref_from_upload(&no_ref).unwrap().cid, "");
    assert!(blob_ref_from_upload(&json(r#"{"blob":{"mimeType":"image/png"}}"#)).is_none());
    assert!(blob_ref_from_upload(&json("{}")).is_none());
}

#[test]
fn http_401_returns_auth_error() {
    let body = r#"{"error":"AuthenticationRequired","message":"Invalid token"}"#;
    let msg = failure_message("createRecord", 401, &parse_xrpc_error(body));
    assert!(msg.contains("401"), "expected 401 in: {}", msg);
    assert_eq!(msg, "createRecord failed (401): AuthenticationRequired: Invalid token");
}

#[test]
fn http_500_returns_server_error() {
    let msg = failure_message("deleteRecord", 500, &parse_xrpc_error("Internal Server Error"));
    assert!(msg.contains("500"), "expected 500 in: {}", msg);
    assert_eq!(msg, "deleteRecord failed (500): Internal Server Error");
}

#[test]
fn expired_access_token_refreshes_without_waiting_for_a_401() {
    let now = chrono::Utc::now().timestamp();
    let expired = jwt_with_exp(now - 10);
    let stored = match choose_auth_token("admin-token", Some(expired.clone()), now) {
        AuthTokenChoice::RefreshFirst { stored } => stored,
        _ => panic!("an expired stored token must be refreshed before the write"),
    };
    assert_eq!(stored, expired);
    let token = token_after_refresh(stored, Ok(Some("new-access-jwt".to_string())));
    assert_eq!(token, "new-access-jwt");
}

#[test]
fn create_record_refreshes_session_and_retries_on_401() {
    let token = match choose_auth_token("shared", Some("stale-access-jwt".to_string()), 0) {
        AuthTokenChoice::Use { token } => token,
        _ => panic!("a token without exp is used as it is"),
    };
    assert_eq!(token, "stale-access-jwt");
    assert!(retry_with_refresh(401, false));
    let retried = token_after_refresh(token, Ok(Some("new-access-jwt".to_string())));
    assert_eq!(retried, "new-access-jwt");
    assert!(!retry_with_refresh(401, true));
    let response = CreateRecordResponse {
        uri: "at://did:plc:abc123/app.bsky.feed.post/rk".into(),
        cid: "bafyrei123".into(),
        validation_status: Some("valid".into()),
    };
    assert_eq!(check_validation_status(response.clone()), Ok(response));
}

#[test]
fn reserved_create_recovers_after_get_record_refreshes_session() {
    assert!(retry_with_refresh(401, false));
    assert_eq!(token_after_refresh("stale-access-jwt".into(), Ok(Some("new-access-jwt".into()))), "new-access-jwt");
    let response = json(
        r#"{"uri":"at://did:plc:abc123/app.bsky.feed.post/3reservedtid","cid":"bafyexistingrecord",
            "value":{"$type":"app.bsky.feed.post","text":"already committed","createdAt":"2024-01-01T00:00:00Z"}}"#,
    );
    let recovery = recover_reserved_record("did:plc:abc123", "app.bsky.feed.post", "3reservedtid", &response, true);
    let create_error = failure_message("createRecord", 500, &parse_xrpc_error(r#"{"error":"InternalServerError"}"#));
    let got = resolve_failed_create(create_error, recovery).unwrap();
    assert_eq!(got.uri, "at://did:plc:abc123/app.bsky.feed.post/3reservedtid");
    assert_eq!(got.cid, "bafyexistingrecord");
}

#[test]
fn reserved_create_transport_failure_remains_retryable_when_recovery_misses() {
    let create_error = "failed to send createRecord request: error sending request".to_string();
    let recovery_miss = Err("failed to send getRecord request: error sending request".to_string());
    let message = resolve_failed_create(create_error.clone(), recovery_miss).unwrap_err();
    assert!(
        message.contains("failed to send")
            || message.contains("error sending request")
            || message.contains("tcp connect error"),
        "{message}"
    );
    assert_eq!(message, create_error);
}

#[test]
fn reserved_create_compares_the_written_record() {
    let written = json(r#"{"$type":"app.bsky.feed.post","text":"already committed"}"#);
    let same = json(r#"{"uri":"at://did:plc:a/app.bsky.feed.post/k","cid":"c","value":{"text":"already committed","$type":"app.bsky.feed.post"}}"#);
    let got = divine_sky::xrpc::recover_written_record("did:plc:a", "app.bsky.feed.post", "k", &same, &written).unwrap();
    assert_eq!(got.cid, "c");
    let other = json(r#"{"uri":"at://did:plc:a/app.bsky.feed.post/k","cid":"c","value":{"text":"else"}}"#);
    let err = divine_sky::xrpc::recover_written_record("did:plc:a", "app.bsky.feed.post", "k", &other, &written).unwrap_err();
    assert_eq!(err, "REMOTE_RECORD_DIVERGED: reserved URI contains different content");
    assert!(divine_sky::json::json_equal(&written, &json(r#"{"text":"already committed","$type":"app.bsky.feed.post"}"#)));
    assert!(!divine_sky::json::json_equal(&written, &json(r#"[1,2]"#)));
}
