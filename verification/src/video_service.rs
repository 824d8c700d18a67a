//! Video uploads through the video transcoding service: routing, service
//! auth, the upload response, and the decisions of the job-status poll.
//!
//! HTTP, sleeping and the clock are the caller's.

use vstd::prelude::*;
use crate::chars::{decimal_text, push_all, starts_with, str_equal, u64_to_decimal};
use crate::event::BlobRef;
use crate::health::{contains_seq, str_contains};
use crate::json::{as_string, as_u64, get_member, json_text_value, member, parse_json_text, string_of, u64_of, JsonValue};
use crate::xrpc::{optional_string_ok, optional_string_text};

verus! {

/// Only `video/*` blobs go through the transcoding service.
pub fn is_video_mime(mime_type: &str) -> (b: bool)
    ensures
        b == (mime_type@.len() >= 6 && mime_type@.take(6) == "video/"@),
{
    proof {
        reveal_strlit("video/");
    }
    starts_with(mime_type, "video/")
}

/// A response that means the session token expired: 401, or a 400 whose
/// body names `ExpiredToken`.
pub fn is_expired_token(status: u16, body: &str) -> (b: bool)
    ensures
        b == (status == 401 || (status == 400 && contains_seq(body@, "ExpiredToken"@))),
{
    status == 401 || (status == 400 && str_contains(body, "ExpiredToken"))
}

/// `{base}/xrpc/app.bsky.video.getJobStatus?jobId={job}`.
pub fn job_status_url(video_service_url: &str, job_id: &str) -> (u: String)
    ensures
        u@ == video_service_url@ + "/xrpc/app.bsky.video.getJobStatus?jobId="@ + job_id@,
{
    let mut u = video_service_url.to_string();
    push_all(&mut u, "/xrpc/app.bsky.video.getJobStatus?jobId=");
    push_all(&mut u, job_id);
    u
}

/// `{base}/xrpc/app.bsky.video.uploadVideo?did={did}&name=divine-video.mp4`.
pub fn upload_video_url(video_service_url: &str, did: &str) -> (u: String)
    ensures
        u@ == video_service_url@ + "/xrpc/app.bsky.video.uploadVideo?did="@ + did@ + "&name=divine-video.mp4"@,
{
    let mut u = video_service_url.to_string();
    push_all(&mut u, "/xrpc/app.bsky.video.uploadVideo?did=");
    push_all(&mut u, did);
    push_all(&mut u, "&name=divine-video.mp4");
    u
}

/// `{pds}/xrpc/com.atproto.server.getServiceAuth?aud={pds did}&lxm=com.atproto.repo.uploadBlob`:
/// the audience is the PDS's own service DID and the method is `uploadBlob`.
pub fn service_auth_url(pds_url: &str, pds_service_did: &str) -> (u: String)
    ensures
        u@ == pds_url@ + "/xrpc/com.atproto.server.getServiceAuth?aud="@ + pds_service_did@
            + "&lxm=com.atproto.repo.uploadBlob"@,
{
    let mut u = pds_url.to_string();
    push_all(&mut u, "/xrpc/com.atproto.server.getServiceAuth?aud=");
    push_all(&mut u, pds_service_did);
    push_all(&mut u, "&lxm=com.atproto.repo.uploadBlob");
    u
}

/// The error of a refused `getServiceAuth`.
pub fn service_auth_failure(status: u16, did: &str, body: &str) -> (m: String)
    ensures
        m@ == "getServiceAuth failed ("@ + decimal_text(status as nat) + ") for did="@ + did@ + ": "@ + body@,
{
    let mut m = "getServiceAuth failed (".to_string();
    let code = u64_to_decimal(status as u64);
    push_all(&mut m, code.as_str());
    push_all(&mut m, ") for did=");
    push_all(&mut m, did);
    push_all(&mut m, ": ");
    push_all(&mut m, body);
    m
}

/// The `did` a `describeServer` body names: it must be an object with a `did` text.
pub open spec fn described_did(v: JsonValue) -> Option<Seq<char>> {
    if v is Object {
        string_of(member(v, "did"@))
    } else {
        None
    }
}

/// Read the PDS's service DID from its `describeServer` body.
pub fn describe_server_did(v: &JsonValue) -> (did: Option<String>)
    ensures
        did is Some <==> described_did(*v) is Some,
        did matches Some(d) ==> described_did(*v) == Some(d@),
{
    match v {
        JsonValue::Object(_) => match get_member(v, "did") {
            Some(d) => as_string(d),
            None => None,
        },
        _ => None,
    }
}

/// What to do after a `getServiceAuth` answer.
#[derive(Debug, Clone, PartialEq, Eq)]
pub enum ServiceAuthStep {
    /// The service token.
    Token { token: String },
    /// The session expired: refresh it and ask again.
    Refresh,
    /// No token can be had.
    Fail { error: String },
}

/// The token of a `getServiceAuth` body: an object with a `token` text.
pub open spec fn service_auth_token(v: Option<JsonValue>) -> Option<Seq<char>> {
    match v {
        Some(x) => if x is Object {
            string_of(member(x, "token"@))
        } else {
            None
        },
        None => None,
    }
}

/// The decision after a `getServiceAuth` answer for `did`: a success body
/// gives its token; an expired session is refreshed once; anything else fails.
pub open spec fn service_auth_next(did: Seq<char>, status: u16, body: Seq<char>, refreshed: bool, step: ServiceAuthStep) -> bool {
    if 200 <= status <= 299 {
        match service_auth_token(json_text_value(body)) {
            Some(t) => step matches ServiceAuthStep::Token { token } && token@ == t,
            None => step matches ServiceAuthStep::Fail { error } && error@ == "failed to parse getServiceAuth response"@,
        }
    } else if !refreshed && (status == 401 || (status == 400 && contains_seq(body, "ExpiredToken"@))) {
        step is Refresh
    } else {
        step matches ServiceAuthStep::Fail { error } && error@ == "getServiceAuth failed ("@ + decimal_text(
            status as nat,
        ) + ") for did="@ + did + ": "@ + body
    }
}

/// Decide what follows a `getServiceAuth` answer; `refreshed` says whether
/// the session was refreshed already.
pub fn service_auth_step(did: &str, status: u16, body: &str, refreshed: bool) -> (step: ServiceAuthStep)
    ensures
        service_auth_next(did@, status, body@, refreshed, step),
{
    if 200 <= status && status <= 299 {
        let parsed = parse_json_text(body);
        let token = match &parsed {
            Some(v) => match v {
                JsonValue::Object(_) => match get_member(v, "token") {
                    Some(t) => as_string(t),
                    None => None,
                },
                _ => None,
            },
            None => None,
        };
        return match token {
            Some(token) => ServiceAuthStep::Token { token },
            None => ServiceAuthStep::Fail { error: "failed to parse getServiceAuth response".to_string() },
        };
    }
    if !refreshed && is_expired_token(status, body) {
        return ServiceAuthStep::Refresh;
    }
    ServiceAuthStep::Fail { error: service_auth_failure(status, did, body) }
}

/// The first of two optional texts that is present, else `fallback`.
pub open spec fn first_present(a: Option<JsonValue>, b: Option<JsonValue>, fallback: Seq<char>) -> Seq<char> {
    match a {
        Some(JsonValue::String(s)) => s@,
        _ => match b {
            Some(JsonValue::String(s)) => s@,
            _ => fallback,
        },
    }
}

fn first_present_text(v: &JsonValue, a: &str, b: &str, fallback: &str) -> (s: String)
    ensures
        s@ == first_present(member(*v, a@), member(*v, b@), fallback@),
{
    match get_member(v, a) {
        Some(JsonValue::String(s)) => s.clone(),
        _ => match get_member(v, b) {
            Some(JsonValue::String(s)) => s.clone(),
            _ => fallback.to_string(),
        },
    }
}

/// An `uploadVideo` body reads when it is an object whose `jobId`, `state`,
/// `error` and `message` members are each absent, `null` or a string.
pub open spec fn upload_response_ok(v: JsonValue) -> bool {
    v is Object && optional_string_ok(member(v, "jobId"@)) && optional_string_ok(member(v, "state"@))
        && optional_string_ok(member(v, "error"@)) && optional_string_ok(member(v, "message"@))
}

/// What an `uploadVideo` response gives: the job id, or why there is none.
pub open spec fn upload_result(status: u16, body: Seq<char>, parsed: Option<JsonValue>, res: Result<String, String>) -> bool {
    match parsed {
        Some(v) if upload_response_ok(v) => if !(200 <= status <= 299) {
            res matches Err(m) && m@ == "uploadVideo failed ("@ + decimal_text(status as nat) + "): "@
                + first_present(member(v, "error"@), member(v, "message"@), body)
        } else {
            match member(v, "jobId"@) {
                Some(JsonValue::String(id)) => res matches Ok(j) && j@ == id@,
                _ => res matches Err(m) && m@ == "uploadVideo returned no jobId: "@ + first_present(
                    member(v, "error"@),
                    member(v, "message"@),
                    "unknown"@,
                ),
            }
        },
        _ => res matches Err(m) && m@ == "uploadVideo response parse failed ("@ + decimal_text(status as nat)
            + "): "@ + body,
    }
}

/// Read an `uploadVideo` response: its body is read as JSON, then as the
/// upload's answer.
pub fn upload_video_result(status: u16, body: &str) -> (res: Result<String, String>)
    ensures
        upload_result(status, body@, json_text_value(body@), res),
{
    let parsed = parse_json_text(body);
    upload_result_from_json(status, body, &parsed)
}

/// Read an `uploadVideo` response (status, body and the body's JSON value).
pub fn upload_result_from_json(status: u16, body: &str, parsed: &Option<JsonValue>) -> (res: Result<String, String>)
    ensures
        upload_result(status, body@, *parsed, res),
{
    let code = u64_to_decimal(status as u64);
    let v = match parsed {
        Some(v) => v,
        None => {
            let mut m = "uploadVideo response parse failed (".to_string();
            push_all(&mut m, code.as_str());
            push_all(&mut m, "): ");
            push_all(&mut m, body);
            return Err(m);
        },
    };
    let readable = match v {
        JsonValue::Object(_) => {
            let a = crate::xrpc::optional_string_ok_exec(v, "jobId");
            let b = crate::xrpc::optional_string_ok_exec(v, "state");
            let c = crate::xrpc::optional_string_ok_exec(v, "error");
            let d = crate::xrpc::optional_string_ok_exec(v, "message");
            a && b && c && d
        },
        _ => false,
    };
    if !readable {
        let mut m = "uploadVideo response parse failed (".to_string();
        push_all(&mut m, code.as_str());
        push_all(&mut m, "): ");
        push_all(&mut m, body);
        return Err(m);
    }
    if !(200 <= status && status <= 299) {
        let mut m = "uploadVideo failed (".to_string();
        push_all(&mut m, code.as_str());
        push_all(&mut m, "): ");
        let detail = first_present_text(v, "error", "message", body);
        push_all(&mut m, detail.as_str());
        return Err(m);
    }
    match get_member(v, "jobId") {
        Some(JsonValue::String(id)) => Ok(id.clone()),
        _ => {
            let mut m = "uploadVideo returned no jobId: ".to_string();
            let detail = first_present_text(v, "error", "message", "unknown");
            push_all(&mut m, detail.as_str());
            Err(m)
        },
    }
}

/// A job's blob: `ref.$link`, `mimeType` and `size`, all required.
pub open spec fn job_blob_of(b: JsonValue) -> Option<(Seq<char>, Seq<char>, u64)> {
    match (
        match member(b, "ref"@) {
            Some(r) => string_of(member(r, "$link"@)),
            None => None,
        },
        string_of(member(b, "mimeType"@)),
        u64_of(member(b, "size"@)),
    ) {
        (Some(l), Some(m), Some(s)) => Some((l, m, s)),
        _ => None,
    }
}

/// The `jobStatus` of a `getJobStatus` body reads: a `state` text, a `blob`
/// that is absent, `null` or complete, and optional-text `error`/`message`.
pub open spec fn job_status_ok(body: JsonValue) -> bool {
    match member(body, "jobStatus"@) {
        Some(js) => {
            &&& js is Object
            &&& string_of(member(js, "state"@)) is Some
            &&& match member(js, "blob"@) {
                None => true,
                Some(JsonValue::Null) => true,
                Some(b) => job_blob_of(b) is Some,
            }
            &&& optional_string_ok(member(js, "error"@))
            &&& optional_string_ok(member(js, "message"@))
        },
        None => false,
    }
}

/// What to do after a poll.
pub enum PollStep {
    /// Sleep and poll again.
    Continue,
    /// The job finished with this blob.
    Done { blob: BlobRef },
    /// The job cannot give a blob.
    Fail { error: String },
}

/// A job-status poll as the caller saw it.
pub enum PollResponse {
    /// The service answered with a non-success status.
    HttpError { status: u16 },
    /// A success body and its JSON value (`None` when not JSON).
    Body { parsed: Option<JsonValue> },
}

/// The decision of one poll of job `job_id`: a non-success answer is retried,
/// an unreadable body fails, a completed job gives its blob, a failed job
/// fails, any other state is polled again.
pub open spec fn poll_spec(job_id: Seq<char>, response: PollResponse, step: PollStep) -> bool {
    match response {
        PollResponse::HttpError { .. } => step is Continue,
        PollResponse::Body { parsed } => match parsed {
            Some(body) if job_status_ok(body) => {
                let js = member(body, "jobStatus"@)->Some_0;
                let state = string_of(member(js, "state"@))->Some_0;
                if state == "JOB_STATE_COMPLETED"@ {
                    match member(js, "blob"@) {
                        Some(b) if !(b is Null) => match job_blob_of(b) {
                            Some((l, m, s)) => step matches PollStep::Done { blob } && blob.cid@ == l
                                && blob.mime_type@ == m && blob.size == s,
                            None => false,
                        },
                        _ => step matches PollStep::Fail { error } && error@ == "completed job has no blob ref"@,
                    }
                } else if state == "JOB_STATE_FAILED"@ {
                    step matches PollStep::Fail { error } && error@ == "video transcoding failed for job "@
                        + job_id + ": "@ + first_present(member(js, "error"@), member(js, "message"@), "unknown"@)
                } else {
                    step is Continue
                }
            },
            _ => step matches PollStep::Fail { error } && error@ == "getJobStatus parse failed"@,
        },
    }
}

/// The error of a poll that ran out of time (`{secs}s` as the timeout).
pub fn poll_timeout_error(timeout_secs: u64, job_id: &str) -> (m: String)
    ensures
        m@ == "video transcoding timed out after "@ + decimal_text(timeout_secs as nat) + "s for job "@ + job_id@,
{
    let mut m = "video transcoding timed out after ".to_string();
    let secs = u64_to_decimal(timeout_secs);
    push_all(&mut m, secs.as_str());
    push_all(&mut m, "s for job ");
    push_all(&mut m, job_id);
    m
}

fn blob_of_job(b: &JsonValue) -> (r: Option<BlobRef>)
    ensures
        r is Some <==> job_blob_of(*b) is Some,
        r matches Some(x) ==> job_blob_of(*b) == Some((x.cid@, x.mime_type@, x.size)),
{
    let link = match get_member(b, "ref") {
        Some(r) => match get_member(r, "$link") {
            Some(l) => as_string(l),
            None => None,
        },
        None => None,
    };
    let mime = match get_member(b, "mimeType") {
        Some(m) => as_string(m),
        None => None,
    };
    let size = match get_member(b, "size") {
        Some(s) => as_u64(s),
        None => None,
    };
    match (link, mime, size) {
        (Some(cid), Some(mime_type), Some(size)) => Some(BlobRef { cid, mime_type, size }),
        _ => None,
    }
}

/// Decide what follows one `getJobStatus` poll of job `job_id`.
pub fn poll_step(job_id: &str, response: PollResponse) -> (step: PollStep)
    ensures
        poll_spec(job_id@, response, step),
{
    let parse_failed = PollStep::Fail { error: "getJobStatus parse failed".to_string() };
    let body = match response {
        PollResponse::HttpError { .. } => return PollStep::Continue,
        PollResponse::Body { parsed } => parsed,
    };
    let body = match body {
        Some(b) => b,
        None => return parse_failed,
    };
    let js = match get_member(&body, "jobStatus") {
        Some(js) => js,
        None => return parse_failed,
    };
    let is_object = match js {
        JsonValue::Object(_) => true,
        _ => false,
    };
    if !is_object {
        return parse_failed;
    }
    let state = match get_member(js, "state") {
        Some(s) => as_string(s),
        None => None,
    };
    let state = match state {
        Some(s) => s,
        None => return parse_failed,
    };
    let blob = match get_member(js, "blob") {
        None => None,
        Some(JsonValue::Null) => None,
        Some(b) => match blob_of_job(b) {
            Some(x) => Some(x),
            None => return parse_failed,
        },
    };
    if !crate::xrpc::optional_string_ok_exec(js, "error") || !crate::xrpc::optional_string_ok_exec(js, "message") {
        return parse_failed;
    }
    if str_equal(state.as_str(), "JOB_STATE_COMPLETED") {
        match blob {
            Some(b) => PollStep::Done { blob: b },
            None => PollStep::Fail { error: "completed job has no blob ref".to_string() },
        }
    } else if str_equal(state.as_str(), "JOB_STATE_FAILED") {
        let mut m = "video transcoding failed for job ".to_string();
        push_all(&mut m, job_id);
        push_all(&mut m, ": ");
        let detail = first_present_text(js, "error", "message", "unknown");
        push_all(&mut m, detail.as_str());
        PollStep::Fail { error: m }
    } else {
        PollStep::Continue
    }
}

} // verus!
