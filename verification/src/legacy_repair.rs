//! Operator repair of publish jobs that failed with the legacy BadJwt
//! signature error: preview, confirm and roll back.
//!
//! The database transaction and JSON encoding are the caller's. This module
//! holds the request rules, the confirmation digest, the sanitised job
//! snapshots, and each decision that confirm and rollback make on what the
//! database returned.

use vstd::prelude::*;
use crate::chars::{char_vec, push_all, str_equal, trim_chars, trim_seq};
use crate::order::{has_text, sort_dedup_strings, strictly_sorted};
use crate::signature::{hex_encode, hex_lower};
use crate::translator::{sha256_digest, spec_sha256};
use crate::json::{json_compact_text, write_json_text, JsonNumber, JsonTree, JsonValue};

verus! {

broadcast use vstd::seq_lib::group_seq_properties;

/// The only error text that BadJwt class repairs accept.
pub const BADJWT_SIGNATURE_ERROR: &'static str = "BadJwt: Signature tag didn't verify";

/// Largest number of jobs one repair may touch.
pub const MAX_REPAIR_LIMIT: i64 = 1000;

/// The repair service and the database it works on.
pub struct LegacyRepairService {
    pub database_url: String,
}

impl LegacyRepairService {
    pub fn new(database_url: String) -> (s: LegacyRepairService)
        ensures
            s.database_url == database_url,
    {
        LegacyRepairService { database_url }
    }
}

/// What a preview found and the digest that confirms it.
pub struct LegacyRepairPreviewResult {
    pub operation_id: String,
    pub matched_event_ids: Vec<String>,
    pub total_matching: i64,
    pub has_more: bool,
    pub next_after_event_id: Option<String>,
    pub confirmation_digest: String,
}

/// What a confirm or rollback changed.
pub struct LegacyRepairApplyResult {
    pub operation_id: String,
    pub changed_count: i64,
    pub skipped_count: i64,
    pub status: String,
}

/// Which jobs a repair targets: one account's jobs, named explicitly or by
/// the exact BadJwt error, after a cursor, up to a limit.
#[derive(Debug, Clone, PartialEq, Eq)]
pub struct LegacyBadJwtRepairFilter {
    pub nostr_pubkey: String,
    pub event_ids: Vec<String>,
    pub exact_error: Option<String>,
    pub after_event_id: Option<String>,
    pub limit: i64,
}

/// A lower-case hex digit.
pub open spec fn is_lower_hex_digit(c: char) -> bool {
    ('0' <= c && c <= '9') || ('a' <= c && c <= 'f')
}

/// 64 lower-case hex characters (a Nostr key or event id).
pub open spec fn lower_hex_64(s: Seq<char>) -> bool {
    s.len() == 64 && forall|i: int| 0 <= i < s.len() ==> is_lower_hex_digit(#[trigger] s[i])
}

pub fn is_lower_hex_64(value: &str) -> (b: bool)
    ensures
        b == lower_hex_64(value@),
{
    let v = char_vec(value);
    if v.len() != 64 {
        return false;
    }
    let mut i: usize = 0;
    while i < v.len()
        invariant
            i <= v@.len(),
            v@ == value@,
            forall|j: int| 0 <= j < i ==> is_lower_hex_digit(#[trigger] v@[j]),
        decreases v.len() - i,
    {
        let c = v[i];
        if !(('0' <= c && c <= '9') || ('a' <= c && c <= 'f')) {
            return false;
        }
        i += 1;
    }
    true
}

/// Why a repair request is refused, if it is.
pub open spec fn request_problem(actor: Seq<char>, f: LegacyBadJwtRepairFilter) -> Option<Seq<char>> {
    if trim_seq(actor).len() == 0 {
        Some("actor is required"@)
    } else if !lower_hex_64(f.nostr_pubkey@) {
        Some("nostr pubkey must be 64 lowercase hex characters"@)
    } else if f.limit < 1 || f.limit > 1000 {
        Some("repair limit must be between 1 and 1000"@)
    } else if f.event_ids@.len() == 0 && f.exact_error is None {
        Some("event IDs or exact BadJwt mode are required"@)
    } else if f.event_ids@.len() > 0 && f.exact_error is Some {
        Some("explicit event IDs cannot be combined with BadJwt class mode"@)
    } else if exists|i: int| 0 <= i < f.event_ids@.len() && !lower_hex_64(#[trigger] f.event_ids@[i]@) {
        Some("event IDs must be 64 lowercase hex characters"@)
    } else if f.after_event_id matches Some(a) && !lower_hex_64(a@) {
        Some("after event ID must be 64 lowercase hex characters"@)
    } else if f.exact_error matches Some(e) && e@ != BADJWT_SIGNATURE_ERROR@ {
        Some("only the exact allowlisted BadJwt error is accepted"@)
    } else {
        None
    }
}

/// Check a repair request.
pub fn validate_request(actor: &str, filter: &LegacyBadJwtRepairFilter) -> (res: Result<(), String>)
    ensures
        res is Ok <==> request_problem(actor@, *filter) is None,
        res matches Err(m) ==> request_problem(actor@, *filter) == Some(m@),
{
    let trimmed = trim_chars(&char_vec(actor));
    if trimmed.len() == 0 {
        return Err("actor is required".to_string());
    }
    if !is_lower_hex_64(filter.nostr_pubkey.as_str()) {
        return Err("nostr pubkey must be 64 lowercase hex characters".to_string());
    }
    if filter.limit < 1 || filter.limit > MAX_REPAIR_LIMIT {
        return Err("repair limit must be between 1 and 1000".to_string());
    }
    if filter.event_ids.len() == 0 && filter.exact_error.is_none() {
        return Err("event IDs or exact BadJwt mode are required".to_string());
    }
    if filter.event_ids.len() > 0 && filter.exact_error.is_some() {
        return Err("explicit event IDs cannot be combined with BadJwt class mode".to_string());
    }
    let mut i: usize = 0;
    while i < filter.event_ids.len()
        invariant
            i <= filter.event_ids@.len(),
            forall|j: int| 0 <= j < i ==> lower_hex_64(#[trigger] filter.event_ids@[j]@),
            trim_seq(actor@).len() != 0,
            lower_hex_64(filter.nostr_pubkey@),
            1 <= filter.limit <= 1000,
            !(filter.event_ids@.len() == 0 && filter.exact_error is None),
            !(filter.event_ids@.len() > 0 && filter.exact_error is Some),
        decreases filter.event_ids.len() - i,
    {
        if !is_lower_hex_64(filter.event_ids[i].as_str()) {
            assert(!lower_hex_64(filter.event_ids@[i as int]@));
            return Err("event IDs must be 64 lowercase hex characters".to_string());
        }
        i += 1;
    }
    if let Some(after) = &filter.after_event_id {
        if !is_lower_hex_64(after.as_str()) {
            return Err("after event ID must be 64 lowercase hex characters".to_string());
        }
    }
    if let Some(error) = &filter.exact_error {
        if !str_equal(error.as_str(), BADJWT_SIGNATURE_ERROR) {
            return Err("only the exact allowlisted BadJwt error is accepted".to_string());
        }
    }
    Ok(())
}

/// A preview's filter: its event ids sorted, each once.
pub fn normalise_filter(filter: LegacyBadJwtRepairFilter) -> (f: LegacyBadJwtRepairFilter)
    ensures
        strictly_sorted(f.event_ids@),
        forall|x: Seq<char>| #[trigger] has_text(f.event_ids@, x) <==> has_text(filter.event_ids@, x),
        f.nostr_pubkey == filter.nostr_pubkey,
        f.exact_error == filter.exact_error,
        f.after_event_id == filter.after_event_id,
        f.limit == filter.limit,
{
    let event_ids = sort_dedup_strings(filter.event_ids);
    LegacyBadJwtRepairFilter {
        nostr_pubkey: filter.nostr_pubkey,
        event_ids,
        exact_error: filter.exact_error,
        after_event_id: filter.after_event_id,
        limit: filter.limit,
    }
}

/// The RFC 3339 text that chrono writes for a UTC time given in Unix
/// microseconds, with as many fractional digits as the time needs (0, 3, 6
/// or 9), `None` outside chrono's range.
pub uninterp spec fn rfc3339_autosi_micros(us: i64) -> Option<Seq<char>>;

/// `chrono::DateTime::<Utc>::from_timestamp_micros(us)` then
/// `to_rfc3339_opts(SecondsFormat::AutoSi, true)`, which is how chrono's
/// `Serialize` writes a `DateTime<Utc>`.
#[verifier::external_body]
fn format_time_micros(us: i64) -> (res: Option<String>)
    ensures
        res is Some <==> rfc3339_autosi_micros(us) is Some,
        res matches Some(t) ==> rfc3339_autosi_micros(us) == Some(t@),
{
    chrono::DateTime::<chrono::Utc>::from_timestamp_micros(us).map(
        |d| d.to_rfc3339_opts(chrono::SecondsFormat::AutoSi, true),
    )
}

/// What a preview records as the scope of a repair.
pub struct PersistedScope {
    pub nostr_pubkey: String,
    pub event_ids: Vec<String>,
    pub exact_error: Option<String>,
    pub after_event_id: Option<String>,
    pub limit: i64,
    pub matched_event_ids: Vec<String>,
}

/// A JSON array of texts.
pub open spec fn texts_tree(v: Seq<String>) -> JsonTree {
    JsonTree::Array(v.map_values(|x: String| JsonTree::Str(x@)))
}

/// A text, or `null`.
pub open spec fn opt_text_tree(o: Option<String>) -> JsonTree {
    match o {
        Some(x) => JsonTree::Str(x@),
        None => JsonTree::Null,
    }
}

/// The JSON of a scope, member by member.
pub open spec fn scope_tree(s: PersistedScope) -> JsonTree {
    JsonTree::Object(
        seq![
            ("nostr_pubkey"@, JsonTree::Str(s.nostr_pubkey@)),
            ("event_ids"@, texts_tree(s.event_ids@)),
            ("exact_error"@, opt_text_tree(s.exact_error)),
            ("after_event_id"@, opt_text_tree(s.after_event_id)),
            ("limit"@, JsonTree::Number(JsonNumber::Signed(s.limit))),
            ("matched_event_ids"@, texts_tree(s.matched_event_ids@)),
        ],
    )
}

/// A time as JSON text, when chrono can write it.
pub open spec fn time_tree(us: i64) -> Option<JsonTree> {
    match rfc3339_autosi_micros(us) {
        Some(t) => Some(JsonTree::Str(t)),
        None => None,
    }
}

/// An optional time: `null` when absent.
pub open spec fn opt_time_tree(o: Option<i64>) -> Option<JsonTree> {
    match o {
        None => Some(JsonTree::Null),
        Some(us) => time_tree(us),
    }
}

/// The JSON of a sanitised snapshot, when its times can be written.
pub open spec fn image_tree(i: SanitizedBeforeImage) -> Option<JsonTree> {
    match (opt_time_tree(i.lease_expires_at), opt_time_tree(i.completed_at), time_tree(i.updated_at)) {
        (Some(l), Some(c), Some(u)) => Some(
            JsonTree::Object(
                seq![
                    ("nostr_event_id"@, JsonTree::Str(i.nostr_event_id@)),
                    ("state"@, JsonTree::Str(i.state@)),
                    ("attempt"@, JsonTree::Number(JsonNumber::Signed(i.attempt as i64))),
                    ("error_sha256"@, JsonTree::Str(i.error_sha256@)),
                    ("lease_owner_present"@, JsonTree::Bool(i.lease_owner_present)),
                    ("lease_expires_at"@, l),
                    ("completed_at"@, c),
                    ("updated_at"@, u),
                ],
            ),
        ),
        _ => None,
    }
}

/// The JSON array of snapshots, when every one can be written.
pub open spec fn images_tree(v: Seq<SanitizedBeforeImage>) -> Option<JsonTree> {
    if forall|i: int| 0 <= i < v.len() ==> (#[trigger] image_tree(v[i])) is Some {
        Some(JsonTree::Array(v.map_values(|x: SanitizedBeforeImage| image_tree(x)->Some_0)))
    } else {
        None
    }
}

/// The document a confirmation digest is taken of:
/// `{operation_id, actor, scope, before_images}`.
pub open spec fn confirmation_tree(
    operation_id: Seq<char>,
    actor: Seq<char>,
    scope: PersistedScope,
    images: Seq<SanitizedBeforeImage>,
) -> Option<JsonTree> {
    match images_tree(images) {
        Some(b) => Some(
            JsonTree::Object(
                seq![
                    ("operation_id"@, JsonTree::Str(operation_id)),
                    ("actor"@, JsonTree::Str(actor)),
                    ("scope"@, scope_tree(scope)),
                    ("before_images"@, b),
                ],
            ),
        ),
        None => None,
    }
}

/// A JSON array of texts.
fn texts_value(v: &Vec<String>) -> (j: JsonValue)
    ensures
        j@ == texts_tree(v@),
{
    let mut items: Vec<JsonValue> = Vec::new();
    let mut i: usize = 0;
    while i < v.len()
        invariant
            i <= v@.len(),
            items@.len() == i,
            forall|k: int| 0 <= k < i ==> (#[trigger] items@[k])@ == JsonTree::Str(v@[k]@),
        decreases v.len() - i,
    {
        items.push(JsonValue::String(v[i].clone()));
        i += 1;
    }
    let j = JsonValue::Array(items);
    assert(j@ =~= texts_tree(v@)) by {
        assert(j@->Array_0 =~= texts_tree(v@)->Array_0);
    }
    j
}

fn opt_text_value(o: &Option<String>) -> (j: JsonValue)
    ensures
        j@ == opt_text_tree(*o),
{
    match o {
        Some(x) => JsonValue::String(x.clone()),
        None => JsonValue::Null,
    }
}

fn time_value(us: i64) -> (j: Option<JsonValue>)
    ensures
        match time_tree(us) {
            Some(t) => j matches Some(x) && x@ == t,
            None => j is None,
        },
{
    match format_time_micros(us) {
        Some(t) => Some(JsonValue::String(t)),
        None => None,
    }
}

fn opt_time_value(o: Option<i64>) -> (j: Option<JsonValue>)
    ensures
        match opt_time_tree(o) {
            Some(t) => j matches Some(x) && x@ == t,
            None => j is None,
        },
{
    match o {
        None => Some(JsonValue::Null),
        Some(us) => time_value(us),
    }
}

/// An object value from its members, in order.
fn object_value(members: Vec<(&str, JsonValue)>) -> (j: JsonValue)
    ensures
        j@ == JsonTree::Object(members@.map_values(|m: (&str, JsonValue)| (m.0@, m.1@))),
{
    let ghost target = members@.map_values(|m: (&str, JsonValue)| (m.0@, m.1@));
    let mut fields: Vec<(String, JsonValue)> = Vec::new();
    let mut rest = members;
    let ghost all = rest@;
    let n = rest.len();
    let mut i: usize = 0;
    while rest.len() > 0
        invariant
            all == members@,
            n == all.len(),
            target == all.map_values(|m: (&str, JsonValue)| (m.0@, m.1@)),
            i + rest@.len() == all.len(),
            rest@ == all.skip(i as int),
            fields@.len() == i,
            forall|k: int| 0 <= k < i ==> (#[trigger] fields@[k]).0@ == target[k].0 && fields@[k].1@ == target[k].1,
        decreases rest.len(),
    {
        let (k, v) = rest.remove(0);
        assert(all.skip(i as int)[0] == all[i as int]);
        assert(rest@ =~= all.skip(i + 1));
        fields.push((k.to_string(), v));
        i += 1;
    }
    let j = JsonValue::Object(fields);
    assert(j@->Object_0 =~= target);
    j
}

fn image_value(img: &SanitizedBeforeImage) -> (j: Option<JsonValue>)
    ensures
        match image_tree(*img) {
            Some(t) => j matches Some(x) && x@ == t,
            None => j is None,
        },
{
    let lease = match opt_time_value(img.lease_expires_at) {
        Some(v) => v,
        None => return None,
    };
    let completed = match opt_time_value(img.completed_at) {
        Some(v) => v,
        None => return None,
    };
    let updated = match time_value(img.updated_at) {
        Some(v) => v,
        None => return None,
    };
    let members = vec![
        ("nostr_event_id", JsonValue::String(img.nostr_event_id.clone())),
        ("state", JsonValue::String(img.state.clone())),
        ("attempt", JsonValue::Number(JsonNumber::Signed(img.attempt as i64))),
        ("error_sha256", JsonValue::String(img.error_sha256.clone())),
        ("lease_owner_present", JsonValue::Bool(img.lease_owner_present)),
        ("lease_expires_at", lease),
        ("completed_at", completed),
        ("updated_at", updated),
    ];
    proof {
        reveal_strlit("nostr_event_id");
        reveal_strlit("state");
        reveal_strlit("attempt");
        reveal_strlit("error_sha256");
        reveal_strlit("lease_owner_present");
        reveal_strlit("lease_expires_at");
        reveal_strlit("completed_at");
        reveal_strlit("updated_at");
    }
    let j = object_value(members);
    assert(j@->Object_0 =~= image_tree(*img)->Some_0->Object_0);
    Some(j)
}

/// The confirmation document of a preview, when its times can be written.
fn confirmation_value(
    operation_id: &str,
    actor: &str,
    scope: &PersistedScope,
    before_images: &Vec<SanitizedBeforeImage>,
) -> (j: Option<JsonValue>)
    ensures
        match confirmation_tree(operation_id@, actor@, *scope, before_images@) {
            Some(t) => j matches Some(x) && x@ == t,
            None => j is None,
        },
{
    let mut images: Vec<JsonValue> = Vec::new();
    let mut i: usize = 0;
    while i < before_images.len()
        invariant
            i <= before_images@.len(),
            images@.len() == i,
            forall|k: int| 0 <= k < i ==> (#[trigger] image_tree(before_images@[k])) is Some
                && images@[k]@ == image_tree(before_images@[k])->Some_0,
        decreases before_images.len() - i,
    {
        match image_value(&before_images[i]) {
            Some(v) => images.push(v),
            None => {
                assert(images_tree(before_images@) is None);
                return None;
            },
        }
        i += 1;
    }
    let images_v = JsonValue::Array(images);
    assert(images_v@->Array_0 =~= images_tree(before_images@)->Some_0->Array_0);
    let scope_members = vec![
        ("nostr_pubkey", JsonValue::String(scope.nostr_pubkey.clone())),
        ("event_ids", texts_value(&scope.event_ids)),
        ("exact_error", opt_text_value(&scope.exact_error)),
        ("after_event_id", opt_text_value(&scope.after_event_id)),
        ("limit", JsonValue::Number(JsonNumber::Signed(scope.limit))),
        ("matched_event_ids", texts_value(&scope.matched_event_ids)),
    ];
    proof {
        reveal_strlit("nostr_pubkey");
        reveal_strlit("event_ids");
        reveal_strlit("exact_error");
        reveal_strlit("after_event_id");
        reveal_strlit("limit");
        reveal_strlit("matched_event_ids");
        reveal_strlit("operation_id");
        reveal_strlit("actor");
        reveal_strlit("scope");
        reveal_strlit("before_images");
    }
    let scope_v = object_value(scope_members);
    assert(scope_v@->Object_0 =~= scope_tree(*scope)->Object_0);
    let members = vec![
        ("operation_id", JsonValue::String(operation_id.to_string())),
        ("actor", JsonValue::String(actor.to_string())),
        ("scope", scope_v),
        ("before_images", images_v),
    ];
    let j = object_value(members);
    assert(j@->Object_0 =~= confirmation_tree(operation_id@, actor@, *scope, before_images@)->Some_0->Object_0);
    Some(j)
}

/// The confirmation digest of a repair: lower-case hex SHA-256 of the
/// compact JSON of `{operation_id, actor, scope, before_images}`; `None`
/// when a snapshot's time is outside what chrono can write.
pub fn confirmation_digest(
    operation_id: &str,
    actor: &str,
    scope: &PersistedScope,
    before_images: &Vec<SanitizedBeforeImage>,
) -> (d: Option<String>)
    ensures
        match confirmation_tree(operation_id@, actor@, *scope, before_images@) {
            Some(t) => d matches Some(x) && x@ == hex_lower(
                spec_sha256(vstd::utf8::encode_utf8(json_compact_text(t))),
            ),
            None => d is None,
        },
{
    let doc = match confirmation_value(operation_id, actor, scope, before_images) {
        Some(v) => v,
        None => return None,
    };
    let text = write_json_text(&doc);
    let hash = sha256_digest(text.as_str().as_bytes());
    Some(hex_encode(hash.as_slice()))
}

/// A publish job as a repair sees it (times in Unix microseconds).
pub struct LegacyRepairJobSnapshot {
    pub nostr_event_id: String,
    pub state: String,
    pub attempt: i32,
    pub error: Option<String>,
    pub lease_owner: Option<String>,
    pub lease_expires_at: Option<i64>,
    pub completed_at: Option<i64>,
    pub updated_at: i64,
}

/// A job snapshot kept with a repair: the error only as its digest, the
/// lease owner only as whether there is one.
pub struct SanitizedBeforeImage {
    pub nostr_event_id: String,
    pub state: String,
    pub attempt: i32,
    pub error_sha256: String,
    pub lease_owner_present: bool,
    pub lease_expires_at: Option<i64>,
    pub completed_at: Option<i64>,
    pub updated_at: i64,
}

/// The sanitised snapshot of a job.
pub open spec fn sanitized_of(s: SanitizedBeforeImage, job: LegacyRepairJobSnapshot) -> bool {
    &&& s.nostr_event_id@ == job.nostr_event_id@
    &&& s.state@ == job.state@
    &&& s.attempt == job.attempt
    &&& s.error_sha256@ == hex_lower(
        spec_sha256(
            vstd::utf8::encode_utf8(
                match job.error {
                    Some(e) => e@,
                    None => Seq::<char>::empty(),
                },
            ),
        ),
    )
    &&& s.lease_owner_present == job.lease_owner is Some
    &&& s.lease_expires_at == job.lease_expires_at
    &&& s.completed_at == job.completed_at
    &&& s.updated_at == job.updated_at
}

pub fn sanitize_job(job: &LegacyRepairJobSnapshot) -> (s: SanitizedBeforeImage)
    ensures
        sanitized_of(s, *job),
{
    let error_text = match &job.error {
        Some(e) => e.as_str(),
        None => "",
    };
    proof {
        reveal_strlit("");
        assert(""@ =~= Seq::<char>::empty());
    }
    let hash = sha256_digest(error_text.as_bytes());
    SanitizedBeforeImage {
        nostr_event_id: job.nostr_event_id.clone(),
        state: job.state.clone(),
        attempt: job.attempt,
        error_sha256: hex_encode(hash.as_slice()),
        lease_owner_present: job.lease_owner.is_some(),
        lease_expires_at: job.lease_expires_at,
        completed_at: job.completed_at,
        updated_at: job.updated_at,
    }
}

/// The sanitised snapshots of jobs, in order.
pub fn sanitized_before_images(jobs: &Vec<LegacyRepairJobSnapshot>) -> (res: Vec<SanitizedBeforeImage>)
    ensures
        res@.len() == jobs@.len(),
        forall|i: int| 0 <= i < jobs@.len() ==> sanitized_of(#[trigger] res@[i], jobs@[i]),
{
    let mut res: Vec<SanitizedBeforeImage> = Vec::new();
    let mut i: usize = 0;
    while i < jobs.len()
        invariant
            i <= jobs@.len(),
            res@.len() == i,
            forall|j: int| 0 <= j < i ==> sanitized_of(#[trigger] res@[j], jobs@[j]),
        decreases jobs.len() - i,
    {
        res.push(sanitize_job(&jobs[i]));
        i += 1;
    }
    res
}

/// A stored repair operation as confirm and rollback read it.
pub struct RepairActionRecord {
    pub operation_id: String,
    pub confirmation_digest: String,
    pub changed_count: i64,
    pub status: String,
}

/// What a confirm does after loading its operation.
pub enum ConfirmStart {
    /// The operation was applied before: report it again.
    AlreadyApplied { result: LegacyRepairApplyResult },
    /// Re-check the candidates and apply.
    Proceed,
}

/// Confirm's first decision: the digest must match the preview's, an applied
/// operation is reported as it stands, and only a previewed one goes on.
pub fn confirm_start(action: RepairActionRecord, digest: &str) -> (res: Result<ConfirmStart, String>)
    ensures
        action.confirmation_digest@ != digest@ ==> (res matches Err(m) && m@
            == "confirmation digest does not match preview"@),
        action.confirmation_digest@ == digest@ && action.status@ == "applied"@ ==> (res matches Ok(
            ConfirmStart::AlreadyApplied { result },
        ) && result.operation_id == action.operation_id && result.changed_count == action.changed_count
            && result.skipped_count == 0 && result.status == action.status),
        action.confirmation_digest@ == digest@ && action.status@ != "applied"@ && action.status@
            != "previewed"@ ==> (res matches Err(m) && m@ == "operation is not confirmable"@),
        action.confirmation_digest@ == digest@ && action.status@ == "previewed"@ ==> res matches Ok(
            ConfirmStart::Proceed,
        ),
{
    proof {
        reveal_strlit("applied");
        reveal_strlit("previewed");
        assert("applied"@.len() != "previewed"@.len());
    }
    if !str_equal(action.confirmation_digest.as_str(), digest) {
        return Err("confirmation digest does not match preview".to_string());
    }
    if str_equal(action.status.as_str(), "applied") {
        return Ok(
            ConfirmStart::AlreadyApplied {
                result: LegacyRepairApplyResult {
                    operation_id: action.operation_id,
                    changed_count: action.changed_count,
                    skipped_count: 0,
                    status: action.status,
                },
            },
        );
    }
    if !str_equal(action.status.as_str(), "previewed") {
        return Err("operation is not confirmable".to_string());
    }
    Ok(ConfirmStart::Proceed)
}

/// Two sanitised snapshots agree field by field.
pub open spec fn same_image(a: SanitizedBeforeImage, b: SanitizedBeforeImage) -> bool {
    &&& a.nostr_event_id@ == b.nostr_event_id@
    &&& a.state@ == b.state@
    &&& a.attempt == b.attempt
    &&& a.error_sha256@ == b.error_sha256@
    &&& a.lease_owner_present == b.lease_owner_present
    &&& a.lease_expires_at == b.lease_expires_at
    &&& a.completed_at == b.completed_at
    &&& a.updated_at == b.updated_at
}

/// Whether the snapshots taken at confirm time are those kept at preview:
/// the same number, pairwise the same, in order.
pub fn same_before_images(kept: &Vec<SanitizedBeforeImage>, current: &Vec<SanitizedBeforeImage>) -> (r: bool)
    ensures
        r == (kept@.len() == current@.len() && forall|i: int|
            0 <= i < kept@.len() ==> same_image(#[trigger] kept@[i], current@[i])),
{
    if kept.len() != current.len() {
        return false;
    }
    let mut i: usize = 0;
    while i < kept.len()
        invariant
            i <= kept@.len(),
            kept@.len() == current@.len(),
            forall|j: int| 0 <= j < i ==> same_image(#[trigger] kept@[j], current@[j]),
        decreases kept.len() - i,
    {
        let a = &kept[i];
        let b = &current[i];
        let same = str_equal(a.nostr_event_id.as_str(), b.nostr_event_id.as_str()) && str_equal(
            a.state.as_str(),
            b.state.as_str(),
        ) && a.attempt == b.attempt && str_equal(a.error_sha256.as_str(), b.error_sha256.as_str())
            && a.lease_owner_present == b.lease_owner_present && a.lease_expires_at == b.lease_expires_at
            && a.completed_at == b.completed_at && a.updated_at == b.updated_at;
        if !same {
            assert(!same_image(kept@[i as int], current@[i as int]));
            return false;
        }
        i += 1;
    }
    true
}

/// The candidates locked at confirm time must be the previewed ones: same
/// digest, same ids in the same order, same snapshots.
pub fn check_candidates(
    current_digest: &str,
    previewed_digest: &str,
    current_ids: &Vec<String>,
    matched_ids: &Vec<String>,
    snapshots_unchanged: bool,
) -> (res: Result<(), String>)
    ensures
        current_digest@ != previewed_digest@ ==> (res matches Err(m) && m@
            == "confirmation digest no longer matches candidates"@),
        current_digest@ == previewed_digest@ ==> (res is Ok <==> (crate::event::strings_view(
            current_ids@,
        ) == crate::event::strings_view(matched_ids@) && snapshots_unchanged)),
        current_digest@ == previewed_digest@ && res is Err ==> (res matches Err(m) && m@
            == "repair candidates changed after preview"@),
{
    if !str_equal(current_digest, previewed_digest) {
        return Err("confirmation digest no longer matches candidates".to_string());
    }
    let same = same_strings(current_ids, matched_ids);
    if !same || !snapshots_unchanged {
        return Err("repair candidates changed after preview".to_string());
    }
    Ok(())
}

/// Whether two lists hold the same texts in the same order.
fn same_strings(a: &Vec<String>, b: &Vec<String>) -> (res: bool)
    ensures
        res == (crate::event::strings_view(a@) == crate::event::strings_view(b@)),
{
    if a.len() != b.len() {
        assert(crate::event::strings_view(a@).len() != crate::event::strings_view(b@).len());
        return false;
    }
    let mut i: usize = 0;
    while i < a.len()
        invariant
            i <= a@.len(),
            a@.len() == b@.len(),
            forall|j: int| 0 <= j < i ==> (#[trigger] a@[j])@ == b@[j]@,
        decreases a.len() - i,
    {
        if !str_equal(a[i].as_str(), b[i].as_str()) {
            assert(crate::event::strings_view(a@)[i as int] != crate::event::strings_view(b@)[i as int]);
            return false;
        }
        i += 1;
    }
    assert(crate::event::strings_view(a@) =~= crate::event::strings_view(b@));
    true
}

/// Confirm's last decision: the revival must have changed exactly the
/// previewed jobs.
pub fn finish_confirm(operation_id: &str, changed: i64, matched_count: usize) -> (res: Result<
    LegacyRepairApplyResult,
    String,
>)
    ensures
        changed != matched_count ==> (res matches Err(m) && m@ == "repair changed fewer rows than previewed"@),
        changed == matched_count ==> (res matches Ok(r) && r.operation_id@ == operation_id@ && r.changed_count
            == changed && r.skipped_count == 0 && r.status@ == "applied"@),
{
    if changed < 0 || changed as u64 != matched_count as u64 {
        return Err("repair changed fewer rows than previewed".to_string());
    }
    Ok(
        LegacyRepairApplyResult {
            operation_id: operation_id.to_string(),
            changed_count: changed,
            skipped_count: 0,
            status: "applied".to_string(),
        },
    )
}

/// Rollback's first decision: a rolled-back operation is reported as it
/// stands (`Some`), only an applied one is rolled back (`None`).
pub fn rollback_start(action: RepairActionRecord) -> (res: Result<Option<LegacyRepairApplyResult>, String>)
    ensures
        action.status@ == "rolled_back"@ ==> (res matches Ok(Some(r)) && r.operation_id
            == action.operation_id && r.changed_count == action.changed_count && r.skipped_count == 0
            && r.status == action.status),
        action.status@ == "applied"@ ==> res matches Ok(None),
        action.status@ != "rolled_back"@ && action.status@ != "applied"@ ==> (res matches Err(m) && m@
            == "only an applied operation can be rolled back"@),
{
    proof {
        reveal_strlit("applied");
        reveal_strlit("rolled_back");
        assert("applied"@.len() != "rolled_back"@.len());
    }
    if str_equal(action.status.as_str(), "rolled_back") {
        return Ok(
            Some(
                LegacyRepairApplyResult {
                    operation_id: action.operation_id,
                    changed_count: action.changed_count,
                    skipped_count: 0,
                    status: action.status,
                },
            ),
        );
    }
    if !str_equal(action.status.as_str(), "applied") {
        return Err("only an applied operation can be rolled back".to_string());
    }
    Ok(None)
}

/// Number of restores that touched no row.
pub open spec fn skipped_restores(rows: Seq<u64>) -> nat
    decreases rows.len(),
{
    if rows.len() == 0 {
        0
    } else {
        skipped_restores(rows.drop_last()) + if rows.last() == 0 {
            1nat
        } else {
            0nat
        }
    }
}

/// The result of a rollback from the rows each restore updated: a restore
/// that updated nothing is skipped; the rollback is partial if any was.
pub fn rollback_result(operation_id: &str, rows_updated: &Vec<u64>) -> (r: LegacyRepairApplyResult)
    requires
        rows_updated@.len() <= i64::MAX,
    ensures
        r.operation_id@ == operation_id@,
        r.skipped_count == skipped_restores(rows_updated@),
        r.changed_count + r.skipped_count == rows_updated@.len(),
        r.status@ == (if r.skipped_count == 0 {
            "rolled_back"@
        } else {
            "rollback_partial"@
        }),
{
    let mut changed: i64 = 0;
    let mut skipped: i64 = 0;
    let mut i: usize = 0;
    while i < rows_updated.len()
        invariant
            i <= rows_updated@.len() <= i64::MAX,
            changed + skipped == i,
            skipped == skipped_restores(rows_updated@.take(i as int)),
            changed >= 0,
            skipped >= 0,
        decreases rows_updated.len() - i,
    {
        assert(rows_updated@.take(i + 1).drop_last() =~= rows_updated@.take(i as int));
        if rows_updated[i] == 0 {
            skipped += 1;
        } else {
            changed += 1;
        }
        i += 1;
    }
    assert(rows_updated@.take(rows_updated@.len() as int) =~= rows_updated@);
    let status = if skipped == 0 {
        "rolled_back".to_string()
    } else {
        "rollback_partial".to_string()
    };
    LegacyRepairApplyResult { operation_id: operation_id.to_string(), changed_count: changed, skipped_count: skipped, status }
}

} // verus!
