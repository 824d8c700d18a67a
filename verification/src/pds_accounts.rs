//! Creating accounts on the PDS (rsky-native `createAccount`): request
//! shape, retry and conflict decisions, and recovery of an existing DID.
//!
//! HTTP is the caller's; each function decides on what a call returned.

use vstd::prelude::*;
use crate::chars::{ascii_lower_seq, char_vec, decimal_text, push_all, to_ascii_lowercase};
use crate::health::{contains_seq, str_contains};
use crate::json::json_text_value;
use crate::signature::hex_lower;
use crate::xrpc::{failure_message, failure_text, parse_xrpc_error, xrpc_error_detail};

verus! {

/// Attempts made at `createAccount` unless configured otherwise.
pub const DEFAULT_MAX_ATTEMPTS: usize = 3;

/// A PDS session issued with a new account.
pub struct PdsSession {
    pub access_jwt: String,
    pub refresh_jwt: String,
}

/// An account the PDS created (or already had), with its session if issued.
pub struct CreatedAccount {
    pub did: String,
    pub session: Option<PdsSession>,
}

/// The `createAccount` request body.
pub struct CreateAccountRequest {
    pub handle: String,
    pub email: String,
    pub password: String,
    pub invite_code: String,
    pub recovery_key: Option<String>,
}

/// The attempt budget: the configured number, at least one.
pub fn attempts_at_least_one(max_attempts: usize) -> (n: usize)
    ensures
        n == if max_attempts < 1 {
            1
        } else {
            max_attempts
        },
{
    if max_attempts < 1 {
        1
    } else {
        max_attempts
    }
}

/// The synthesised address of an account: `noreply+{handle}@{domain}`.
pub fn account_email(handle: &str, email_domain: &str) -> (e: String)
    ensures
        e@ == "noreply+"@ + handle@ + "@"@ + email_domain@,
{
    let mut e = "noreply+".to_string();
    push_all(&mut e, handle);
    push_all(&mut e, "@");
    push_all(&mut e, email_domain);
    e
}

/// Standard padded base64 text of a byte string.
pub open spec fn spec_base64(data: Seq<u8>) -> Seq<char> {
    crate::encoding::base64_text(data, false, true)
}

/// `data_encoding::BASE64.encode`, which panics on inputs over
/// `usize::MAX / 512` bytes (8,388,607 on a 32-bit target).
#[verifier::external_body]
fn base64_encode(data: &[u8]) -> (res: String)
    requires
        data@.len() <= 8_388_607,
    ensures
        res@ == spec_base64(data@),
{
    data_encoding::BASE64.encode(data)
}

/// 32 bytes from the operating system's random source (`OsRng::fill_bytes`);
/// only their number is stated.
#[verifier::external_body]
fn random_bytes_32() -> (b: Vec<u8>)
    ensures
        b@.len() == 32,
{
    let mut bytes = [0u8; 32];
    secp256k1::rand::RngCore::fill_bytes(&mut secp256k1::rand::rngs::OsRng, &mut bytes);
    bytes.to_vec()
}

/// `data_encoding::HEXLOWER.encode`: lower-case hex, two digits per byte.
/// It panics on inputs over `usize::MAX / 512` bytes (8,388,607 on a 32-bit
/// target).
#[verifier::external_body]
fn hexlower_encode(data: &[u8]) -> (res: String)
    requires
        data@.len() <= 8_388_607,
    ensures
        res@ == hex_lower(data@),
{
    data_encoding::HEXLOWER.encode(data)
}

/// A fresh account password: the lower-case hex of 32 random bytes.
pub fn generate_password() -> (p: String)
    ensures
        exists|b: Seq<u8>| b.len() == 32 && p@ == hex_lower(b),
{
    let bytes = random_bytes_32();
    hexlower_encode(bytes.as_slice())
}

/// The HTTP Basic credentials of the PDS admin: `Basic base64(admin:{password})`.
pub fn basic_auth_header(admin_password: &str) -> (h: String)
    requires
        vstd::utf8::encode_utf8("admin:"@ + admin_password@).len() <= 8_388_607,
    ensures
        h@ == "Basic "@ + spec_base64(vstd::utf8::encode_utf8("admin:"@ + admin_password@)),
{
    let mut creds = "admin:".to_string();
    push_all(&mut creds, admin_password);
    let encoded = base64_encode(creds.as_str().as_bytes());
    let mut h = "Basic ".to_string();
    push_all(&mut h, encoded.as_str());
    h
}

/// The `createAccount` body: the highest-priority recovery key, if any, is
/// the one passed.
pub fn create_account_request(
    handle: &str,
    email: String,
    password: String,
    invite_code: String,
    recovery_keys: &Vec<String>,
) -> (r: CreateAccountRequest)
    ensures
        r.handle@ == handle@,
        r.email == email,
        r.password == password,
        r.invite_code == invite_code,
        r.recovery_key is Some <==> recovery_keys@.len() > 0,
        r.recovery_key matches Some(k) ==> k@ == recovery_keys@[0]@,
{
    let recovery_key = if recovery_keys.len() > 0 {
        Some(recovery_keys[0].clone())
    } else {
        None
    };
    CreateAccountRequest { handle: handle.to_string(), email, password, invite_code, recovery_key }
}

/// The delay after attempt `attempt` fits in `u64` milliseconds (it does
/// not beyond about 3.7 * 10^17 attempts).
pub open spec fn retry_delay_fits(attempt: usize) -> bool {
    50 * (attempt + 1) <= u64::MAX
}

/// Milliseconds to wait before retrying after attempt `attempt` (from zero).
pub fn retry_delay(attempt: usize) -> (ms: u64)
    requires
        retry_delay_fits(attempt),
    ensures
        ms == 50 * (attempt + 1),
{
    50 * (attempt as u64 + 1)
}

/// A rejected `createAccount` that means the account already exists: 409,
/// or a 400 whose body mentions `already`, `exists` or `taken` (any case).
pub open spec fn is_conflict_spec(status: u16, body: Seq<char>) -> bool {
    status == 409 || (status == 400 && (contains_seq(ascii_lower_seq(body), "already"@) || contains_seq(
        ascii_lower_seq(body),
        "exists"@,
    ) || contains_seq(ascii_lower_seq(body), "taken"@)))
}

pub fn is_existing_account_conflict(status: u16, body: &str) -> (b: bool)
    ensures
        b == is_conflict_spec(status, body@),
{
    if status == 409 {
        return true;
    }
    if status != 400 {
        return false;
    }
    let lowered = crate::chars::string_from_chars(&to_ascii_lowercase(&char_vec(body)));
    str_contains(lowered.as_str(), "already") || str_contains(lowered.as_str(), "exists") || str_contains(
        lowered.as_str(),
        "taken",
    )
}

/// What one `createAccount` request came back with.
pub enum CreateAttempt {
    /// The request was not answered; `retryable` for timeouts, connection and
    /// request errors.
    SendFailed { retryable: bool, error: String },
    /// A successful response, read.
    Created { did: String, access_jwt: Option<String>, refresh_jwt: Option<String> },
    /// A non-success status, with the body.
    Rejected { status: u16, body: String },
}

/// What to do after an attempt.
pub enum CreateAccountStep {
    RetryAfter { millis: u64 },
    ResolveExistingDid,
    Finish { result: Result<CreatedAccount, String> },
}

/// The decision after attempt `attempt` of `max_attempts`: a transport
/// failure or a server error is retried while attempts remain; a conflict
/// recovers the existing DID; a success returns the account with its session
/// when both tokens came.
pub open spec fn create_step_spec(attempt: usize, max_attempts: usize, outcome: CreateAttempt, step: CreateAccountStep) -> bool {
    let more = attempt + 1 < max_attempts;
    match outcome {
        CreateAttempt::SendFailed { retryable, error } => if retryable && more {
            step matches CreateAccountStep::RetryAfter { millis } && millis == 50 * (attempt + 1)
        } else {
            step matches CreateAccountStep::Finish { result: Err(m) } && m@ == "sending PDS createAccount request: "@
                + error@
        },
        CreateAttempt::Created { did, access_jwt, refresh_jwt } => step matches CreateAccountStep::Finish {
            result: Ok(a),
        } && a.did == did && match (access_jwt, refresh_jwt) {
            (Some(x), Some(y)) => a.session matches Some(s) && s.access_jwt == x && s.refresh_jwt == y,
            _ => a.session is None,
        },
        CreateAttempt::Rejected { status, body } => if is_conflict_spec(status, body@) {
            step is ResolveExistingDid
        } else if 500 <= status <= 599 && more {
            step matches CreateAccountStep::RetryAfter { millis } && millis == 50 * (attempt + 1)
        } else {
            step matches CreateAccountStep::Finish { result: Err(m) } && m@ == failure_text(
                "createAccount"@,
                status,
                xrpc_error_detail(body@, json_text_value(body@)),
            )
        },
    }
}

/// Decide what follows a `createAccount` attempt.
pub fn after_create_attempt(attempt: usize, max_attempts: usize, outcome: CreateAttempt) -> (step: CreateAccountStep)
    requires
        attempt < max_attempts,
        attempt + 1 < max_attempts ==> retry_delay_fits(attempt),
    ensures
        create_step_spec(attempt, max_attempts, outcome, step),
        step is RetryAfter ==> attempt + 1 < max_attempts,
{
    let more = attempt + 1 < max_attempts;
    match outcome {
        CreateAttempt::SendFailed { retryable, error } => {
            if retryable && more {
                CreateAccountStep::RetryAfter { millis: retry_delay(attempt) }
            } else {
                let mut m = "sending PDS createAccount request: ".to_string();
                push_all(&mut m, error.as_str());
                CreateAccountStep::Finish { result: Err(m) }
            }
        },
        CreateAttempt::Created { did, access_jwt, refresh_jwt } => {
            let session = match (access_jwt, refresh_jwt) {
                (Some(access_jwt), Some(refresh_jwt)) => Some(PdsSession { access_jwt, refresh_jwt }),
                _ => None,
            };
            CreateAccountStep::Finish { result: Ok(CreatedAccount { did, session }) }
        },
        CreateAttempt::Rejected { status, body } => {
            if is_existing_account_conflict(status, body.as_str()) {
                CreateAccountStep::ResolveExistingDid
            } else if 500 <= status && status <= 599 && more {
                CreateAccountStep::RetryAfter { millis: retry_delay(attempt) }
            } else {
                let detail = parse_xrpc_error(body.as_str());
                CreateAccountStep::Finish { result: Err(failure_message("createAccount", status, detail.as_str())) }
            }
        },
    }
}

/// Two texts equal when ASCII case is ignored.
pub open spec fn eq_ignore_ascii_case(a: Seq<char>, b: Seq<char>) -> bool {
    ascii_lower_seq(a) == ascii_lower_seq(b)
}

/// The DID of an existing repo found by handle: its handle, when it reports
/// one, must be the requested one up to ASCII case.
pub fn check_existing_repo(handle: &str, did: String, repo_handle: Option<String>) -> (res: Result<String, String>)
    ensures
        (repo_handle matches Some(h) && !eq_ignore_ascii_case(h@, handle@)) ==> (res matches Err(m) && m@
            == "existing repo handle mismatch"@),
        !(repo_handle matches Some(h) && !eq_ignore_ascii_case(h@, handle@)) ==> res == Ok::<String, String>(did),
{
    if let Some(h) = repo_handle {
        let a = to_ascii_lowercase(&char_vec(h.as_str()));
        let b = to_ascii_lowercase(&char_vec(handle));
        let same = crate::chars::str_equal(
            crate::chars::string_from_chars(&a).as_str(),
            crate::chars::string_from_chars(&b).as_str(),
        );
        if !same {
            return Err("existing repo handle mismatch".to_string());
        }
    }
    Ok(did)
}

/// A minted invite code must not be empty.
pub fn check_invite_code(code: String) -> (res: Result<String, String>)
    ensures
        code@.len() == 0 ==> (res matches Err(m) && m@ == "createInviteCode returned an empty code"@),
        code@.len() > 0 ==> res == Ok::<String, String>(code),
{
    if code.as_str().is_empty() {
        Err("createInviteCode returned an empty code".to_string())
    } else {
        Ok(code)
    }
}

/// A `createAccount` that keeps failing with server errors stops after the
/// attempt budget: the last attempt never retries.
pub proof fn create_account_retries_are_bounded(max_attempts: usize, outcome: CreateAttempt, step: CreateAccountStep)
    requires
        max_attempts >= 1,
        create_step_spec((max_attempts - 1) as usize, max_attempts, outcome, step),
    ensures
        !(step is RetryAfter),
{
}

} // verus!
