//! Decisions of the bridge's PDS XRPC clients: error texts, endpoints,
//! session-token freshness, create-record recovery and response checks.
//!
//! HTTP and JSON text are the caller's; responses arrive as `JsonValue`s.

use vstd::prelude::*;
use crate::appview::strip_trailing_slashes;
use crate::chars::{char_vec, decimal_text, push_all, push_char, str_equal, string_from_range, u64_to_decimal};
use crate::event::BlobRef;
use crate::health::{contains_seq, str_contains};
use crate::tid::unix_time_micros;
use crate::json::{
    as_i64, as_string, as_u64, get_member, i64_of, json_bytes_value, json_equal, json_text_value, member, parse_json_bytes,
    parse_json_text, string_of, u64_of, JsonValue,
};

verus! {

broadcast use vstd::seq_lib::group_seq_properties;

/// Response from `com.atproto.repo.createRecord`.
#[derive(Debug, Clone, PartialEq, Eq)]
pub struct CreateRecordResponse {
    pub uri: String,
    pub cid: String,
    pub validation_status: Option<String>,
}

/// Response from `com.atproto.repo.putRecord`.
#[derive(Debug, Clone, PartialEq, Eq)]
pub struct PutRecordResponse {
    pub uri: String,
    pub cid: String,
}

/// A member that an optional-string field accepts: absent, `null` or a string.
pub open spec fn optional_string_ok(v: Option<JsonValue>) -> bool {
    match v {
        None => true,
        Some(JsonValue::Null) => true,
        Some(JsonValue::String(_)) => true,
        _ => false,
    }
}

/// The text of an optional-string field, empty when absent or `null`.
pub open spec fn optional_string_text(v: Option<JsonValue>) -> Seq<char> {
    match v {
        Some(JsonValue::String(s)) => s@,
        _ => Seq::empty(),
    }
}

/// The detail of an XRPC error body: `error: message`, or whichever of the
/// two is non-empty, else the raw body. A body that is not an object with
/// optional-string `error` and `message` members counts as raw.
pub open spec fn xrpc_error_detail(body: Seq<char>, parsed: Option<JsonValue>) -> Seq<char> {
    match parsed {
        Some(v) => if v is Object && optional_string_ok(member(v, "error"@)) && optional_string_ok(
            member(v, "message"@),
        ) {
            let e = optional_string_text(member(v, "error"@));
            let m = optional_string_text(member(v, "message"@));
            if e.len() > 0 && m.len() > 0 {
                e + ": "@ + m
            } else if e.len() > 0 {
                e
            } else if m.len() > 0 {
                m
            } else {
                body
            }
        } else {
            body
        },
        None => body,
    }
}

/// The text of an optional-string member, if it is one.
fn optional_string_member(v: &JsonValue, key: &str) -> (res: Option<String>)
    ensures
        res is Some <==> optional_string_ok(member(*v, key@)),
        res matches Some(s) ==> s@ == optional_string_text(member(*v, key@)),
{
    match get_member(v, key) {
        None => Some(String::new()),
        Some(JsonValue::Null) => Some(String::new()),
        Some(JsonValue::String(s)) => Some(s.clone()),
        Some(_) => None,
    }
}

/// Whether member `key` is absent, `null` or a string.
pub fn optional_string_ok_exec(v: &JsonValue, key: &str) -> (b: bool)
    ensures
        b == optional_string_ok(member(*v, key@)),
{
    match get_member(v, key) {
        None => true,
        Some(JsonValue::Null) => true,
        Some(JsonValue::String(_)) => true,
        Some(_) => false,
    }
}

/// Extract a human-readable message from an XRPC error body: the body is
/// read as JSON, then as an error.
pub fn parse_xrpc_error(body: &str) -> (detail: String)
    ensures
        detail@ == xrpc_error_detail(body@, json_text_value(body@)),
{
    let parsed = parse_json_text(body);
    xrpc_error_from_json(body, &parsed)
}

/// Extract a human-readable message from an XRPC error body, given its JSON
/// value (`None` when the body is not JSON).
pub fn xrpc_error_from_json(body: &str, parsed: &Option<JsonValue>) -> (detail: String)
    ensures
        detail@ == xrpc_error_detail(body@, *parsed),
{
    if let Some(v) = parsed {
        if let JsonValue::Object(_) = v {
            let e = optional_string_member(v, "error");
            let m = optional_string_member(v, "message");
            if let (Some(e), Some(m)) = (e, m) {
                if !e.as_str().is_empty() && !m.as_str().is_empty() {
                    let mut s = e;
                    push_all(&mut s, ": ");
                    push_all(&mut s, m.as_str());
                    return s;
                }
                if !e.as_str().is_empty() {
                    return e;
                }
                if !m.as_str().is_empty() {
                    return m;
                }
            }
        }
    }
    body.to_string()
}

/// `{op} failed ({status}): {detail}`.
pub open spec fn failure_text(op: Seq<char>, status: u16, detail: Seq<char>) -> Seq<char> {
    op + " failed ("@ + decimal_text(status as nat) + "): "@ + detail
}

/// The error text of a failed XRPC call.
pub fn failure_message(op: &str, status: u16, detail: &str) -> (m: String)
    ensures
        m@ == failure_text(op@, status, detail@),
{
    let mut m = op.to_string();
    push_all(&mut m, " failed (");
    let code = u64_to_decimal(status as u64);
    push_all(&mut m, code.as_str());
    push_all(&mut m, "): ");
    push_all(&mut m, detail);
    m
}

/// The URL of an XRPC method on a server: `{base without trailing /}/xrpc/{method}`.
pub open spec fn xrpc_url(base: Seq<char>, method: Seq<char>) -> Seq<char> {
    strip_trailing_slashes(base) + "/xrpc/"@ + method
}

/// `s` without its trailing `/` characters.
pub fn trim_trailing_slashes(s: &str) -> (r: String)
    ensures
        r@ == strip_trailing_slashes(s@),
{
    let v = char_vec(s);
    let mut end = v.len();
    while end > 0 && v[end - 1] == '/'
        invariant
            end <= v@.len(),
            v@ == s@,
            strip_trailing_slashes(v@) == strip_trailing_slashes(v@.take(end as int)),
        decreases end,
    {
        assert(v@.take(end as int).drop_last() =~= v@.take(end - 1));
        end -= 1;
    }
    assert(v@.take(end as int) =~= v@.subrange(0, end as int));
    assert(v@.take(v@.len() as int) =~= v@);
    string_from_range(&v, 0, end)
}

pub fn xrpc_endpoint(base: &str, method: &str) -> (url: String)
    ensures
        url@ == xrpc_url(base@, method@),
{
    let mut url = trim_trailing_slashes(base);
    push_all(&mut url, "/xrpc/");
    push_all(&mut url, method);
    url
}

// ---------------------------------------------------------------------------
// Session tokens
// ---------------------------------------------------------------------------

/// Seconds of headroom an access token must have left to count as usable.
pub const ACCESS_TOKEN_MIN_REMAINING_SECS: i64 = 60;

/// The second `.`-separated segment of a text, if it has one.
pub open spec fn second_segment(s: Seq<char>) -> Option<Seq<char>> {
    if exists|i: int| 0 <= i < s.len() && s[i] == '.' {
        let i = choose|i: int| 0 <= i < s.len() && s[i] == '.' && forall|j: int| 0 <= j < i ==> s[j] != '.';
        let rest = s.skip(i + 1);
        if exists|k: int| 0 <= k < rest.len() && rest[k] == '.' {
            let k = choose|k: int| 0 <= k < rest.len() && rest[k] == '.' && forall|j: int| 0 <= j < k ==> rest[j] != '.';
            Some(rest.take(k))
        } else {
            Some(rest)
        }
    } else {
        None
    }
}

/// `s` without its trailing `=` characters.
pub open spec fn strip_trailing_equals(s: Seq<char>) -> Seq<char>
    decreases s.len(),
{
    if s.len() > 0 && s.last() == '=' {
        strip_trailing_equals(s.drop_last())
    } else {
        s
    }
}

/// The bytes that URL-safe unpadded base64 text decodes to, if it decodes.
pub open spec fn base64url_nopad_decoded(text: Seq<u8>) -> Option<Seq<u8>> {
    crate::encoding::base64url_nopad_decoding(text)
}

/// `data_encoding::BASE64URL_NOPAD.decode`, which panics on inputs over
/// `usize::MAX / 8` bytes (536,870,911 on a 32-bit target).
#[verifier::external_body]
fn base64url_nopad_decode(text: &[u8]) -> (res: Option<Vec<u8>>)
    requires
        text@.len() <= 536_870_911,
    ensures
        res is Some <==> base64url_nopad_decoded(text@) is Some,
        res matches Some(v) ==> base64url_nopad_decoded(text@) == Some(v@),
{
    data_encoding::BASE64URL_NOPAD.decode(text).ok()
}

/// The `exp` claim of a JWT (unverified): its payload segment, without
/// trailing `=`, base64url-decoded and read as JSON.
pub open spec fn jwt_exp_spec(token: Seq<char>) -> Option<i64> {
    match second_segment(token) {
        None => None,
        Some(p) => match base64url_nopad_decoded(vstd::utf8::encode_utf8(strip_trailing_equals(p))) {
            None => None,
            Some(bytes) => match json_bytes_value(bytes) {
                Some(claims) => i64_of(member(claims, "exp"@)),
                None => None,
            },
        },
    }
}

/// The base64 decoder takes the payload segment (without trailing `=`): at
/// most 536,870,911 bytes of UTF-8, its limit on a 32-bit target.
pub open spec fn jwt_payload_decodable(token: Seq<char>) -> bool {
    match second_segment(token) {
        None => true,
        Some(p) => vstd::utf8::encode_utf8(strip_trailing_equals(p)).len() <= 536_870_911,
    }
}

/// The payload segment of a token.
fn payload_segment(token: &str) -> (res: Option<String>)
    ensures
        res is Some <==> second_segment(token@) is Some,
        res matches Some(p) ==> second_segment(token@) == Some(p@),
{
    let v = char_vec(token);
    let mut i: usize = 0;
    while i < v.len() && v[i] != '.'
        invariant
            i <= v@.len(),
            v@ == token@,
            forall|j: int| 0 <= j < i ==> v@[j] != '.',
        decreases v.len() - i,
    {
        i += 1;
    }
    if i == v.len() {
        return None;
    }
    let start = i + 1;
    let mut k = start;
    while k < v.len() && v[k] != '.'
        invariant
            start <= k <= v@.len(),
            v@ == token@,
            forall|j: int| start <= j < k ==> v@[j] != '.',
        decreases v.len() - k,
    {
        k += 1;
    }
    let seg = string_from_range(&v, start, k);
    proof {
        let s = token@;
        let i0 = choose|x: int| 0 <= x < s.len() && s[x] == '.' && forall|j: int| 0 <= j < x ==> s[j] != '.';
        assert(i0 == i as int) by {
            if i0 < i {
                assert(s[i0] != '.');
            }
            if i0 > i {
                assert(s[i as int] == '.');
            }
        }
        let rest = s.skip(i + 1);
        if exists|m: int| 0 <= m < rest.len() && rest[m] == '.' {
            let k0 = choose|m: int| 0 <= m < rest.len() && rest[m] == '.' && forall|j: int| 0 <= j < m ==> rest[j] != '.';
            assert(k0 == k - start) by {
                if k0 < k - start {
                    assert(rest[k0] == v@[start + k0]);
                }
                if k0 > k - start {
                    assert(rest[k - start] == v@[k as int]);
                }
            }
            assert(rest.take(k0) =~= v@.subrange(start as int, k as int));
        } else {
            assert(k == v@.len()) by {
                if k < v@.len() {
                    assert(rest[k - start] == '.');
                }
            }
            assert(rest =~= v@.subrange(start as int, k as int));
        }
    }
    Some(seg)
}

/// The `exp` claim of a JWT, if its payload has one.
pub fn jwt_exp_epoch_secs(token: &str) -> (res: Option<i64>)
    requires
        jwt_payload_decodable(token@),
    ensures
        res == jwt_exp_spec(token@),
{
    let payload = match payload_segment(token) {
        Some(p) => p,
        None => return None,
    };
    let v = char_vec(payload.as_str());
    let mut end = v.len();
    while end > 0 && v[end - 1] == '='
        invariant
            end <= v@.len(),
            v@ == payload@,
            strip_trailing_equals(v@) == strip_trailing_equals(v@.take(end as int)),
        decreases end,
    {
        assert(v@.take(end as int).drop_last() =~= v@.take(end - 1));
        end -= 1;
    }
    assert(v@.take(end as int) =~= v@.subrange(0, end as int));
    assert(v@.take(v@.len() as int) =~= v@);
    let trimmed = string_from_range(&v, 0, end);
    match base64url_nopad_decode(trimmed.as_str().as_bytes()) {
        Some(bytes) => match parse_json_bytes(bytes.as_slice()) {
            Some(claims) => match get_member(&claims, "exp") {
                Some(exp) => as_i64(exp),
                None => None,
            },
            None => None,
        },
        None => None,
    }
}

/// A token is usable while its `exp` is more than the headroom after `now`;
/// a token whose expiry cannot be read counts as usable.
pub open spec fn token_usable_spec(token: Seq<char>, now: i64) -> bool {
    match jwt_exp_spec(token) {
        Some(exp) => exp - now > ACCESS_TOKEN_MIN_REMAINING_SECS,
        None => true,
    }
}

/// Whether an access token is usable now, by the system clock. A clock that
/// reads before the Unix epoch reads as the epoch.
pub fn access_token_is_usable(token: &str) -> (b: bool)
    requires
        jwt_payload_decodable(token@),
    ensures
        jwt_exp_spec(token@) is None ==> b,
        exists|now: i64| now >= 0 && b == token_usable_spec(token@, now),
{
    let now: i64 = match unix_time_micros() {
        Some(us) => (us / 1_000_000) as i64,
        None => 0,
    };
    access_token_usable_at(token, now)
}

/// Whether an access token is still usable at `now` (Unix seconds).
pub fn access_token_usable_at(token: &str, now: i64) -> (b: bool)
    requires
        jwt_payload_decodable(token@),
    ensures
        b == token_usable_spec(token@, now),
{
    match jwt_exp_epoch_secs(token) {
        Some(exp) => (exp as i128) - (now as i128) > ACCESS_TOKEN_MIN_REMAINING_SECS as i128,
        None => true,
    }
}

/// Which bearer token to send as an account.
pub enum AuthTokenChoice {
    /// Send this token.
    Use { token: String },
    /// The stored token is expiring: refresh first, falling back to it.
    RefreshFirst { stored: String },
}

/// The bearer token for acting as an account: its stored session token when
/// there is one (refreshed first when it is no longer usable), else the
/// service's default token.
pub fn choose_auth_token(default_token: &str, stored: Option<String>, now: i64) -> (c: AuthTokenChoice)
    requires
        stored matches Some(s) ==> jwt_payload_decodable(s@),
    ensures
        match stored {
            None => c matches AuthTokenChoice::Use { token } && token@ == default_token@,
            Some(s) => if token_usable_spec(s@, now) {
                c matches AuthTokenChoice::Use { token } && token@ == s@
            } else {
                c matches AuthTokenChoice::RefreshFirst { stored: t } && t@ == s@
            },
        },
{
    match stored {
        None => AuthTokenChoice::Use { token: default_token.to_string() },
        Some(s) => {
            if access_token_usable_at(s.as_str(), now) {
                AuthTokenChoice::Use { token: s }
            } else {
                AuthTokenChoice::RefreshFirst { stored: s }
            }
        },
    }
}

/// After a proactive refresh: the fresh token, or the stored one when there
/// was nothing to refresh with or the refresh failed.
pub fn token_after_refresh(stored: String, refreshed: Result<Option<String>, String>) -> (token: String)
    ensures
        refreshed matches Ok(Some(f)) ==> token == f,
        !(refreshed is Ok && refreshed->Ok_0 is Some) ==> token == stored,
{
    match refreshed {
        Ok(Some(fresh)) => fresh,
        _ => stored,
    }
}

/// A repo write is retried once, with a refreshed token, after a 401.
pub fn retry_with_refresh(status: u16, already_refreshed: bool) -> (b: bool)
    ensures
        b == (status == 401 && !already_refreshed),
{
    status == 401 && !already_refreshed
}

// ---------------------------------------------------------------------------
// createRecord
// ---------------------------------------------------------------------------

/// The text that marks a reserved record holding other content.
pub open spec fn diverged_marker() -> Seq<char> {
    "REMOTE_RECORD_DIVERGED"@
}

/// Whether an error says the reserved record diverged.
pub fn is_remote_record_diverged(message: &str) -> (b: bool)
    ensures
        b == contains_seq(message@, diverged_marker()),
{
    str_contains(message, "REMOTE_RECORD_DIVERGED")
}

/// The record a `getRecord` response describes: a `value` member that
/// itself carries `uri` and `value` wraps it, else the response itself.
pub open spec fn record_container(response: JsonValue) -> JsonValue {
    match member(response, "value"@) {
        Some(inner) => if member(inner, "uri"@) is Some && member(inner, "value"@) is Some {
            inner
        } else {
            response
        },
        None => response,
    }
}

/// The `at://` URI of a record.
pub open spec fn at_uri_spec(did: Seq<char>, collection: Seq<char>, rkey: Seq<char>) -> Seq<char> {
    "at://"@ + did + "/"@ + collection + "/"@ + rkey
}

pub fn at_uri(did: &str, collection: &str, rkey: &str) -> (u: String)
    ensures
        u@ == at_uri_spec(did@, collection@, rkey@),
{
    let mut u = "at://".to_string();
    push_all(&mut u, did);
    push_all(&mut u, "/");
    push_all(&mut u, collection);
    push_all(&mut u, "/");
    push_all(&mut u, rkey);
    u
}

/// What recovering a reserved record from a `getRecord` response gives:
/// the record must be present and equal to the one written, at the expected
/// URI, with a CID.
pub open spec fn recovery_result(
    did: Seq<char>,
    collection: Seq<char>,
    rkey: Seq<char>,
    response: JsonValue,
    record_matches: bool,
    res: Result<CreateRecordResponse, String>,
) -> bool {
    let c = record_container(response);
    if member(c, "value"@) is None {
        res matches Err(m) && m@ == "getRecord response is missing record value"@
    } else if !record_matches {
        res matches Err(m) && m@ == "REMOTE_RECORD_DIVERGED: reserved URI contains different content"@
    } else {
        match string_of(member(c, "uri"@)) {
            None => res matches Err(m) && m@ == "getRecord response is missing URI"@,
            Some(u) => if u != at_uri_spec(did, collection, rkey) {
                res matches Err(m) && m@ == "REMOTE_RECORD_DIVERGED: getRecord returned a different URI"@
            } else {
                match string_of(member(c, "cid"@)) {
                    None => res matches Err(m) && m@ == "getRecord response is missing CID"@,
                    Some(cid) => res matches Ok(r) && r.uri@ == u && r.cid@ == cid && r.validation_status is None,
                }
            },
        }
    }
}

/// The container of a `getRecord` response.
fn container_of(response: &JsonValue) -> (c: &JsonValue)
    ensures
        *c == record_container(*response),
{
    match get_member(response, "value") {
        Some(inner) => {
            if get_member(inner, "uri").is_some() && get_member(inner, "value").is_some() {
                inner
            } else {
                response
            }
        },
        None => response,
    }
}

/// Whether the record in a `getRecord` response is the one written.
pub open spec fn holds_written_record(response: JsonValue, written: JsonValue) -> bool {
    match member(record_container(response), "value"@) {
        Some(v) => v@ == written@,
        None => false,
    }
}

/// Recover a create whose outcome is unknown from the reserved record's
/// `getRecord` response, comparing its record with the one written.
pub fn recover_written_record(
    did: &str,
    collection: &str,
    rkey: &str,
    response: &JsonValue,
    written: &JsonValue,
) -> (res: Result<CreateRecordResponse, String>)
    ensures
        recovery_result(did@, collection@, rkey@, *response, holds_written_record(*response, *written), res),
{
    let c = container_of(response);
    let matches = match get_member(c, "value") {
        Some(v) => json_equal(v, written),
        None => false,
    };
    recover_reserved_record(did, collection, rkey, response, matches)
}

/// Recover a create whose outcome is unknown from the reserved record's
/// `getRecord` response; `record_matches` says whether its `value` equals the
/// record that was written.
pub fn recover_reserved_record(
    did: &str,
    collection: &str,
    rkey: &str,
    response: &JsonValue,
    record_matches: bool,
) -> (res: Result<CreateRecordResponse, String>)
    ensures
        recovery_result(did@, collection@, rkey@, *response, record_matches, res),
{
    let c = container_of(response);
    if get_member(c, "value").is_none() {
        return Err("getRecord response is missing record value".to_string());
    }
    if !record_matches {
        return Err("REMOTE_RECORD_DIVERGED: reserved URI contains different content".to_string());
    }
    let uri = match get_member(c, "uri") {
        Some(u) => as_string(u),
        None => None,
    };
    let uri = match uri {
        Some(u) => u,
        None => return Err("getRecord response is missing URI".to_string()),
    };
    let expected = at_uri(did, collection, rkey);
    if !str_equal(uri.as_str(), expected.as_str()) {
        return Err("REMOTE_RECORD_DIVERGED: getRecord returned a different URI".to_string());
    }
    let cid = match get_member(c, "cid") {
        Some(x) => as_string(x),
        None => None,
    };
    match cid {
        Some(cid) => Ok(CreateRecordResponse { uri, cid, validation_status: None }),
        None => Err("getRecord response is missing CID".to_string()),
    }
}

/// After a failed create at a reserved key, the recovery attempt decides:
/// a recovered record is the result, a divergence is the error, and any
/// other recovery failure leaves the create's own error.
pub fn resolve_failed_create(create_error: String, recovery: Result<CreateRecordResponse, String>) -> (res: Result<
    CreateRecordResponse,
    String,
>)
    ensures
        recovery is Ok ==> res == recovery,
        recovery matches Err(e) ==> if contains_seq(e@, diverged_marker()) {
            res == recovery
        } else {
            res matches Err(x) && x == create_error
        },
{
    match recovery {
        Ok(r) => Ok(r),
        Err(e) => {
            if is_remote_record_diverged(e.as_str()) {
                Err(e)
            } else {
                Err(create_error)
            }
        },
    }
}

/// A created record whose validation status is `unknown` is refused.
pub fn check_validation_status(response: CreateRecordResponse) -> (res: Result<CreateRecordResponse, String>)
    ensures
        (response.validation_status matches Some(s) && s@ == "unknown"@) ==> (res matches Err(m) && m@
            == "createRecord returned unknown validation status"@),
        !(response.validation_status matches Some(s) && s@ == "unknown"@) ==> res == Ok::<
            CreateRecordResponse,
            String,
        >(response),
{
    let unknown = match &response.validation_status {
        Some(s) => str_equal(s.as_str(), "unknown"),
        None => false,
    };
    if unknown {
        Err("createRecord returned unknown validation status".to_string())
    } else {
        Ok(response)
    }
}

/// The blob reference of an `uploadBlob` response: `blob.ref.$link` (empty
/// when absent), `blob.mimeType` and `blob.size` (both required).
pub open spec fn uploaded_blob(response: JsonValue, r: Option<BlobRef>) -> bool {
    match member(response, "blob"@) {
        None => r is None,
        Some(blob) => {
            let link = match member(blob, "ref"@) {
                Some(l) => string_of(member(l, "$link"@)),
                None => Some(Seq::<char>::empty()),
            };
            match (link, string_of(member(blob, "mimeType"@)), u64_of(member(blob, "size"@))) {
                (Some(cid), Some(mime), Some(size)) => r matches Some(b) && b.cid@ == cid && b.mime_type@
                    == mime && b.size == size,
                _ => r is None,
            }
        },
    }
}

/// Read an `uploadBlob` response.
pub fn blob_ref_from_upload(response: &JsonValue) -> (r: Option<BlobRef>)
    ensures
        uploaded_blob(*response, r),
{
    let blob = match get_member(response, "blob") {
        Some(b) => b,
        None => return None,
    };
    let link = match get_member(blob, "ref") {
        Some(l) => match get_member(l, "$link") {
            Some(x) => as_string(x),
            None => None,
        },
        None => Some(String::new()),
    };
    let mime = match get_member(blob, "mimeType") {
        Some(x) => as_string(x),
        None => None,
    };
    let size = match get_member(blob, "size") {
        Some(x) => as_u64(x),
        None => None,
    };
    match (link, mime, size) {
        (Some(cid), Some(mime_type), Some(size)) => Some(BlobRef { cid, mime_type, size }),
        _ => None,
    }
}

} // verus!
