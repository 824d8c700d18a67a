use divine_sky::json::{JsonNumber, JsonValue};
use divine_sky::video_service::{
    describe_server_did, is_expired_token, is_video_mime, job_status_url, poll_step, poll_timeout_error,
    service_auth_failure, service_auth_step, service_auth_url, upload_video_result, upload_video_url, PollResponse,
    PollStep, ServiceAuthStep,
};

fn convert(v: serde_json::Value) -> JsonValue {
    match v {
        serde_json::Value::Null => JsonValue::Null,
        serde_json::Value::Bool(b) => JsonValue::Bool(b),
        serde_json::Value::Number(n) => JsonValue::Number(match (n.as_u64(), n.as_i64()) {
            (Some(u), _) => JsonNumber::Unsigned(u),
            (None, Some(i)) => JsonNumber::Signed(i),
            _ => JsonNumber::Float,
        }),
        serde_json::Value::String(s) => JsonValue::String(s),
        serde_json::Value::Array(a) => JsonValue::Array(a.into_iter().map(convert).collect()),
        serde_json::Value::Object(o) => JsonValue::Object(o.into_iter().map(|(k, x)| (k, convert(x))).collect()),
    }
}

fn body(text: &str) -> PollResponse {
    PollResponse::Body { parsed: serde_json::from_str(text).ok().map(convert) }
}

#[test]
fn upload_video_response_deserializes_with_job_id() {
    let json = r#"{"jobId":"job123","state":"JOB_STATE_CREATED"}"#;
    assert_eq!(upload_video_result(200, json), Ok("job123".to_string()));
}

#[test]
fn upload_video_errors_name_the_status_and_detail() {
    assert_eq!(
        upload_video_result(500, r#"{"error":"InternalError","message":"m"}"#),
        Err("uploadVideo failed (500): InternalError".to_string())
    );
    assert_eq!(upload_video_result(503, r#"{}"#), Err("uploadVideo failed (503): {}".to_string()));
    assert_eq!(
        upload_video_result(200, r#"{"message":"quota"}"#),
        Err("uploadVideo returned no jobId: quota".to_string())
    );
    assert_eq!(upload_video_result(200, r#"{}"#), Err("uploadVideo returned no jobId: unknown".to_string()));
    assert_eq!(
        upload_video_result(502, "<html>bad gateway</html>"),
        Err("uploadVideo response parse failed (502): <html>bad gateway</html>".to_string())
    );
    assert_eq!(
        upload_video_result(200, r#"{"jobId":7}"#),
        Err(r#"uploadVideo response parse failed (200): {"jobId":7}"#.to_string())
    );
}

#[test]
fn job_status_completed_deserializes() {
    let json = r#"{
        "jobStatus": {
            "state": "JOB_STATE_COMPLETED",
            "blob": {
                "ref": {"$link": "bafkreivideo123"},
                "mimeType": "video/mp4",
                "size": 1024000
            }
        }
    }"#;
    match poll_step("job1", body(json)) {
        PollStep::Done { blob } => {
            assert_eq!(blob.cid, "bafkreivideo123");
            assert_eq!(blob.mime_type, "video/mp4");
            assert_eq!(blob.size, 1024000);
        }
        _ => panic!("expected the completed blob"),
    }
}

#[test]
fn job_status_failed_deserializes() {
    let json = r#"{
        "jobStatus": {
            "state": "JOB_STATE_FAILED",
            "error": "encoding_error",
            "message": "unsupported codec"
        }
    }"#;
    match poll_step("job1", body(json)) {
        PollStep::Fail { error } => assert_eq!(error, "video transcoding failed for job job1: encoding_error"),
        _ => panic!("expected failure"),
    }
}

#[test]
fn polling_continues_until_a_final_state() {
    assert!(matches!(poll_step("j", PollResponse::HttpError { status: 503 }), PollStep::Continue));
    assert!(matches!(poll_step("j", body(r#"{"jobStatus":{"state":"JOB_STATE_RUNNING"}}"#)), PollStep::Continue));
    match poll_step("j", body(r#"{"jobStatus":{"state":"JOB_STATE_COMPLETED","blob":null}}"#)) {
        PollStep::Fail { error } => assert_eq!(error, "completed job has no blob ref"),
        _ => panic!("expected failure"),
    }
    match poll_step("j", body("not json")) {
        PollStep::Fail { error } => assert_eq!(error, "getJobStatus parse failed"),
        _ => panic!("expected failure"),
    }
    match poll_step("j", body(r#"{"jobStatus":{"state":"JOB_STATE_FAILED"}}"#)) {
        PollStep::Fail { error } => assert_eq!(error, "video transcoding failed for job j: unknown"),
        _ => panic!("expected failure"),
    }
    assert_eq!(poll_timeout_error(300, "j"), "video transcoding timed out after 300s for job j");
}

#[test]
fn routing_and_urls() {
    assert!(is_video_mime("video/mp4"));
    assert!(!is_video_mime("image/png"));
    assert!(!is_video_mime("vide"));
    assert!(is_expired_token(401, ""));
    assert!(is_expired_token(400, r#"{"error":"ExpiredToken"}"#));
    assert!(!is_expired_token(400, r#"{"error":"InvalidToken"}"#));
    assert!(!is_expired_token(500, "ExpiredToken"));
    assert_eq!(job_status_url("https://video.bsky.app", "j1"), "https://video.bsky.app/xrpc/app.bsky.video.getJobStatus?jobId=j1");
    assert_eq!(
        upload_video_url("https://video.bsky.app", "did:plc:a"),
        "https://video.bsky.app/xrpc/app.bsky.video.uploadVideo?did=did:plc:a&name=divine-video.mp4"
    );
    assert_eq!(
        service_auth_url("https://pds.example", "did:web:pds.example"),
        "https://pds.example/xrpc/com.atproto.server.getServiceAuth?aud=did:web:pds.example&lxm=com.atproto.repo.uploadBlob"
    );
    assert_eq!(service_auth_failure(500, "did:plc:a", "boom"), "getServiceAuth failed (500) for did=did:plc:a: boom");
}

#[test]
fn get_service_auth_refreshes_session_and_retries_on_400_expired_token() {
    let describe: serde_json::Value = serde_json::from_str(r#"{"did":"did:web:pds.example"}"#).unwrap();
    assert_eq!(describe_server_did(&convert(describe)), Some("did:web:pds.example".to_string()));
    let expired = r#"{"error":"ExpiredToken","message":"Token has expired"}"#;
    assert_eq!(service_auth_step("did:plc:abc123", 400, expired, false), ServiceAuthStep::Refresh);
    assert_eq!(
        service_auth_step("did:plc:abc123", 200, r#"{"token":"service-jwt"}"#, true),
        ServiceAuthStep::Token { token: "service-jwt".into() }
    );
    assert_eq!(
        service_auth_step("did:plc:abc123", 400, expired, true),
        ServiceAuthStep::Fail { error: format!("getServiceAuth failed (400) for did=did:plc:abc123: {expired}") }
    );
}

#[test]
fn get_service_auth_bails_without_refresh_on_non_expired_error() {
    match service_auth_step("did:plc:abc123", 500, "boom", false) {
        ServiceAuthStep::Fail { error } => {
            assert!(error.contains("500"), "expected 500 in: {error}");
            assert_eq!(error, "getServiceAuth failed (500) for did=did:plc:abc123: boom");
        }
        other => panic!("500 should propagate without refresh, got {:?}", other),
    }
    assert_eq!(service_auth_step("d", 401, "", false), ServiceAuthStep::Refresh);
    assert_eq!(
        service_auth_step("d", 200, "{}", false),
        ServiceAuthStep::Fail { error: "failed to parse getServiceAuth response".into() }
    );
    let not_object: serde_json::Value = serde_json::from_str("[1]").unwrap();
    assert_eq!(describe_server_did(&convert(not_object)), None);
}
