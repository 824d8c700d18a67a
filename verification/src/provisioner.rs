//! Account provisioning: linking a Nostr pubkey to a new or resumed ATProto
//! account (`did:plc` identity, PDS account, lifecycle record).
//!
//! Key generation, the link store, the PLC directory and the PDS are the
//! caller's. `provision_step` says, from where a provisioning stands and the
//! outcome of the last outside call, what to do next.

use vstd::prelude::*;
use crate::chars::{
    ascii_lower_seq, char_vec, ends_with, push_all, str_equal, string_from_chars, to_ascii_lowercase,
    trim_chars, trim_seq,
};
use crate::config::{strip_dots, strip_leading_dots};
use crate::translator::{base32_nopad_encode, sha256_digest, spec_base32_nopad, spec_sha256};

verus! {

broadcast use vstd::seq_lib::group_seq_properties;

// ---------------------------------------------------------------------------
// Types
// ---------------------------------------------------------------------------

/// Result of successfully provisioning or recovering an ATProto account.
#[derive(Debug, Clone, PartialEq, Eq)]
pub struct ProvisionResult {
    pub did: String,
    pub handle: String,
    pub signing_key_id: String,
}

/// Lifecycle states for a linked account.
#[derive(Debug, Clone, Copy, PartialEq, Eq, Structural)]
pub enum ProvisioningState {
    Pending,
    Ready,
    Failed,
    Disabled,
}

/// The stored name of each lifecycle state.
pub open spec fn state_name(s: ProvisioningState) -> Seq<char> {
    match s {
        ProvisioningState::Pending => "pending"@,
        ProvisioningState::Ready => "ready"@,
        ProvisioningState::Failed => "failed"@,
        ProvisioningState::Disabled => "disabled"@,
    }
}

impl ProvisioningState {
    pub fn as_str(&self) -> (s: &'static str)
        ensures
            s@ == state_name(*self),
    {
        match self {
            ProvisioningState::Pending => "pending",
            ProvisioningState::Ready => "ready",
            ProvisioningState::Failed => "failed",
            ProvisioningState::Disabled => "disabled",
        }
    }
}

/// A stored state name that is not one of the four.
#[derive(Debug, Clone, PartialEq, Eq)]
pub struct UnknownStateError {
    pub raw: String,
}

impl UnknownStateError {
    pub fn message(&self) -> (s: String)
        ensures
            s@ == "unknown provisioning_state: "@ + self.raw@,
    {
        let mut s = "unknown provisioning_state: ".to_string();
        push_all(&mut s, self.raw.as_str());
        s
    }
}

/// Read a stored lifecycle state name.
pub fn map_state(raw: &str) -> (res: Result<ProvisioningState, UnknownStateError>)
    ensures
        res matches Ok(s) ==> state_name(s) == raw@,
        res matches Err(e) ==> e.raw@ == raw@ && forall|s: ProvisioningState| state_name(s) != raw@,
{
    if str_equal(raw, "pending") {
        Ok(ProvisioningState::Pending)
    } else if str_equal(raw, "ready") {
        Ok(ProvisioningState::Ready)
    } else if str_equal(raw, "failed") {
        Ok(ProvisioningState::Failed)
    } else if str_equal(raw, "disabled") {
        Ok(ProvisioningState::Disabled)
    } else {
        Err(UnknownStateError { raw: raw.to_string() })
    }
}

/// Durable account-link state (times as Unix seconds).
#[derive(Debug, Clone, PartialEq, Eq)]
pub struct AccountLinkRecord {
    pub nostr_pubkey: String,
    pub did: Option<String>,
    pub handle: String,
    pub crosspost_enabled: bool,
    pub signing_key_id: String,
    pub plc_rotation_key_ref: String,
    pub provisioning_state: ProvisioningState,
    pub provisioning_error: Option<String>,
    pub disabled_at: Option<i64>,
    pub created_at: i64,
    pub updated_at: i64,
}

/// Input used when first persisting an in-progress account link.
#[derive(Debug, Clone, PartialEq, Eq)]
pub struct PendingAccountLink {
    pub nostr_pubkey: String,
    pub did: Option<String>,
    pub handle: String,
    pub crosspost_enabled: bool,
    pub signing_key_id: String,
    pub plc_rotation_key_ref: String,
}

/// A service entry in a PLC operation.
#[derive(Debug, Clone, PartialEq, Eq)]
pub struct PlcService {
    pub service_type: String,
    pub endpoint: String,
}

/// PLC operation sent to the PLC directory. The maps of the wire format are
/// held as lists of `(key, value)` pairs in key order.
#[derive(Debug, Clone, PartialEq, Eq)]
pub struct PlcOperation {
    pub op_type: String,
    pub rotation_keys: Vec<String>,
    pub verification_methods: Vec<(String, String)>,
    pub also_known_as: Vec<String>,
    pub services: Vec<(String, PlcService)>,
    pub prev: Option<String>,
    pub sig: String,
}

/// A generated keypair as the key store reports it: its id and the
/// compressed (33-byte) public key.
#[derive(Debug, Clone, PartialEq, Eq)]
pub struct GeneratedKey {
    pub key_id: String,
    pub public_key: Vec<u8>,
}

/// A provisioning failure: what was being done, and the outside failure's
/// text where there is one.
#[derive(Debug, Clone, PartialEq, Eq)]
pub struct ProvisionError {
    pub context: String,
    pub cause: Option<String>,
}

impl ProvisionError {
    /// The error's text (what was being done).
    pub fn message(&self) -> (s: String)
        ensures
            s@ == self.context@,
    {
        self.context.clone()
    }
}

// ---------------------------------------------------------------------------
// Keys and DIDs
// ---------------------------------------------------------------------------

/// Bitcoin-alphabet base58 text of a byte string.
pub open spec fn spec_bs58(data: Seq<u8>) -> Seq<char> {
    crate::encoding::base58_text(data)
}

/// `bs58::encode(..).into_string()` with the default (Bitcoin) alphabet.
#[verifier::external_body]
fn bs58_encode(data: &[u8]) -> (res: String)
    ensures
        res@ == spec_bs58(data@),
{
    bs58::encode(data).into_string()
}

/// The `did:key` of a compressed secp256k1 public key: multicodec prefix
/// `0xe7 0x01`, base58btc with the `z` multibase tag.
pub open spec fn did_key_spec(compressed: Seq<u8>) -> Seq<char> {
    "did:key:z"@ + spec_bs58(seq![0xe7u8, 0x01u8] + compressed)
}

/// Encode a secp256k1 compressed public key as `did:key:z...`.
pub fn pubkey_to_did_key(compressed: &[u8]) -> (res: String)
    ensures
        res@ == did_key_spec(compressed@),
{
    let mut buf: Vec<u8> = Vec::new();
    buf.push(0xe7u8);
    buf.push(0x01u8);
    let mut i: usize = 0;
    while i < compressed.len()
        invariant
            i <= compressed@.len(),
            buf@ == seq![0xe7u8, 0x01u8] + compressed@.take(i as int),
        decreases compressed.len() - i,
    {
        buf.push(compressed[i]);
        i += 1;
        assert(buf@ =~= seq![0xe7u8, 0x01u8] + compressed@.take(i as int));
    }
    assert(compressed@.take(compressed@.len() as int) =~= compressed@);
    let encoded = bs58_encode(buf.as_slice());
    let mut res = "did:key:z".to_string();
    push_all(&mut res, encoded.as_str());
    res
}

/// The `did:plc` of an operation from its unsigned DAG-CBOR bytes: the
/// lower-case unpadded base32 of the first 15 bytes of their SHA-256.
pub open spec fn did_plc_spec(unsigned_cbor: Seq<u8>) -> Seq<char> {
    "did:plc:"@ + ascii_lower_seq(spec_base32_nopad(spec_sha256(unsigned_cbor).take(15)))
}

/// Derive the `did:plc` identifier of an operation from its unsigned
/// DAG-CBOR encoding.
pub fn derive_did_plc(unsigned_cbor: &[u8]) -> (res: String)
    ensures
        res@ == did_plc_spec(unsigned_cbor@),
        res@.len() == 32,
{
    let hash = sha256_digest(unsigned_cbor);
    let mut head: Vec<u8> = Vec::new();
    let mut i: usize = 0;
    while i < 15
        invariant
            i <= 15,
            hash@.len() == 32,
            head@ == hash@.take(i as int),
        decreases 15 - i,
    {
        head.push(hash[i]);
        i += 1;
        assert(head@ =~= hash@.take(i as int));
    }
    let encoded = base32_nopad_encode(head.as_slice());
    let lower = to_ascii_lowercase(&char_vec(encoded.as_str()));
    let mut res = "did:plc:".to_string();
    let tail = string_from_chars(&lower);
    push_all(&mut res, tail.as_str());
    proof {
        reveal_strlit("did:plc:");
        assert(head@.len() == 15);
        assert(encoded@.len() == 24);
    }
    res
}

/// The order of the secp256k1 group.
pub open spec fn secp256k1_order() -> nat {
    0xFFFFFFFFFFFFFFFFFFFFFFFFFFFFFFFEBAAEDCE6AF48A03BBFD25E8CD0364141nat
}

/// Whether bytes, read big-endian, are a valid secp256k1 secret key: above
/// zero and below the group order.
pub open spec fn secret_key_valid(secret: Seq<u8>) -> bool {
    let n = crate::encoding::be_value(secret);
    0 < n && n < secp256k1_order()
}

/// The compact (64-byte) deterministic ECDSA signature of a digest.
pub uninterp spec fn ecdsa_compact_signature(secret: Seq<u8>, digest: Seq<u8>) -> Seq<u8>;

/// `SecretKey::from_slice`, `Message::from_digest_slice` and
/// `Secp256k1::sign_ecdsa(..).serialize_compact()`: RFC 6979 signing, so the
/// signature is a function of key and digest.
#[verifier::external_body]
fn ecdsa_sign(secret: &[u8], digest: &[u8]) -> (res: Option<Vec<u8>>)
    ensures
        res is Some <==> (secret@.len() == 32 && secret_key_valid(secret@) && digest@.len() == 32),
        res matches Some(s) ==> s@ == ecdsa_compact_signature(secret@, digest@) && s@.len() == 64,
{
    let secp = secp256k1::Secp256k1::signing_only();
    match (secp256k1::SecretKey::from_slice(secret), secp256k1::Message::from_digest_slice(digest)) {
        (Ok(k), Ok(m)) => Some(secp.sign_ecdsa(&m, &k).serialize_compact().to_vec()),
        _ => None,
    }
}

/// URL-safe unpadded base64 text of a byte string.
pub open spec fn spec_base64url_nopad(data: Seq<u8>) -> Seq<char> {
    crate::encoding::base64_text(data, true, false)
}

/// `data_encoding::BASE64URL_NOPAD.encode`.
#[verifier::external_body]
fn base64url_nopad_encode(data: &[u8]) -> (res: String)
    requires
        data@.len() <= 1024,
    ensures
        res@ == spec_base64url_nopad(data@),
{
    data_encoding::BASE64URL_NOPAD.encode(data)
}

/// The signature of an operation: base64url of the ECDSA signature of the
/// SHA-256 of its unsigned DAG-CBOR bytes.
pub open spec fn plc_signature_spec(unsigned_cbor: Seq<u8>, secret: Seq<u8>) -> Seq<char> {
    spec_base64url_nopad(ecdsa_compact_signature(secret, spec_sha256(unsigned_cbor)))
}

/// Sign a PLC operation given its unsigned DAG-CBOR bytes; `None` when the
/// secret is not a valid key.
pub fn sign_plc_operation(unsigned_cbor: &[u8], secret: &[u8]) -> (res: Option<String>)
    ensures
        res is Some <==> (secret@.len() == 32 && secret_key_valid(secret@)),
        res matches Some(s) ==> s@ == plc_signature_spec(unsigned_cbor@, secret@),
{
    let hash = sha256_digest(unsigned_cbor);
    match ecdsa_sign(secret, hash.as_slice()) {
        Some(sig) => Some(base64url_nopad_encode(sig.as_slice())),
        None => None,
    }
}

// ---------------------------------------------------------------------------
// Handles
// ---------------------------------------------------------------------------

/// A requested handle, normalised: trimmed and ASCII lower-cased.
pub open spec fn normalised_handle(h: Seq<char>) -> Seq<char> {
    ascii_lower_seq(trim_seq(h))
}

/// The handle domain: trimmed, leading dots removed.
pub open spec fn handle_domain_of(d: Seq<char>) -> Seq<char> {
    strip_leading_dots(trim_seq(d))
}

/// Why a normalised handle is refused under `domain`, if it is.
pub open spec fn handle_problem(handle: Seq<char>, domain: Seq<char>) -> Option<Seq<char>> {
    let suffix = seq!['.'] + domain;
    if !(suffix.len() <= handle.len() && handle.skip(handle.len() - suffix.len()) == suffix) {
        Some("handle must end with "@ + suffix)
    } else if handle == domain {
        Some("handle must include a username"@)
    } else {
        None
    }
}

/// Normalise a requested handle.
pub fn normalise_handle(handle: &str) -> (res: String)
    ensures
        res@ == normalised_handle(handle@),
{
    let v = char_vec(handle);
    let t = trim_chars(&v);
    let l = to_ascii_lowercase(&t);
    string_from_chars(&l)
}

/// Check a normalised handle against the handle domain.
pub fn validate_handle(handle: &str, handle_domain: &str) -> (res: Result<(), String>)
    ensures
        res is Ok <==> handle_problem(handle@, handle_domain_of(handle_domain@)) is None,
        res matches Err(m) ==> handle_problem(handle@, handle_domain_of(handle_domain@)) == Some(m@),
{
    let trimmed = trim_chars(&char_vec(handle_domain));
    let domain_chars = strip_dots(&trimmed);
    let domain = string_from_chars(&domain_chars);
    let mut suffix = ".".to_string();
    push_all(&mut suffix, domain.as_str());
    proof {
        reveal_strlit(".");
        assert(suffix@ =~= seq!['.'] + domain@);
    }
    if !ends_with(handle, suffix.as_str()) {
        let mut m = "handle must end with ".to_string();
        push_all(&mut m, suffix.as_str());
        return Err(m);
    }
    if str_equal(handle, domain.as_str()) {
        return Err("handle must include a username".to_string());
    }
    Ok(())
}

// ---------------------------------------------------------------------------
// Operation
// ---------------------------------------------------------------------------

/// The unsigned-then-signed genesis operation for a new account: one rotation
/// key, the signing key as the `atproto` verification method, the handle as
/// `at://` alias, the PDS as `atproto_pds` service, no `prev`.
pub open spec fn plc_operation_for(
    op: PlcOperation,
    handle: Seq<char>,
    signing_did_key: Seq<char>,
    rotation_did_key: Seq<char>,
    endpoint: Seq<char>,
    sig: Seq<char>,
) -> bool {
    &&& op.op_type@ == "plc_operation"@
    &&& op.rotation_keys@.len() == 1 && op.rotation_keys@[0]@ == rotation_did_key
    &&& op.verification_methods@.len() == 1 && op.verification_methods@[0].0@ == "atproto"@
        && op.verification_methods@[0].1@ == signing_did_key
    &&& op.also_known_as@.len() == 1 && op.also_known_as@[0]@ == "at://"@ + handle
    &&& op.services@.len() == 1 && op.services@[0].0@ == "atproto_pds"@
        && op.services@[0].1.service_type@ == "AtprotoPersonalDataServer"@
        && op.services@[0].1.endpoint@ == endpoint
    &&& op.prev is None
    &&& op.sig@ == sig
}

/// Build the (unsigned) genesis operation for a new account.
pub fn build_plc_operation(handle: &str, signing_did_key: String, rotation_did_key: String, endpoint: &str) -> (op:
    PlcOperation)
    ensures
        plc_operation_for(op, handle@, signing_did_key@, rotation_did_key@, endpoint@, Seq::empty()),
{
    let mut rotation_keys: Vec<String> = Vec::new();
    rotation_keys.push(rotation_did_key);
    let mut verification_methods: Vec<(String, String)> = Vec::new();
    verification_methods.push(("atproto".to_string(), signing_did_key));
    let mut also_known_as: Vec<String> = Vec::new();
    let mut alias = "at://".to_string();
    push_all(&mut alias, handle);
    also_known_as.push(alias);
    let mut services: Vec<(String, PlcService)> = Vec::new();
    services.push(
        (
            "atproto_pds".to_string(),
            PlcService {
                service_type: "AtprotoPersonalDataServer".to_string(),
                endpoint: endpoint.to_string(),
            },
        ),
    );
    PlcOperation {
        op_type: "plc_operation".to_string(),
        rotation_keys,
        verification_methods,
        also_known_as,
        services,
        prev: None,
        sig: String::new(),
    }
}


// ---------------------------------------------------------------------------
// Provisioning steps
// ---------------------------------------------------------------------------

/// Where a provisioning stands.
pub enum ProvisionState {
    Start,
    AwaitingLinkByPubkey { handle: String },
    AwaitingLinkByHandle { handle: String },
    AwaitingSigningKey { handle: String },
    AwaitingRotationKey { handle: String, signing_key_id: String, signing_did_key: String },
    AwaitingPendingSave { handle: String, signing_did_key: String, rotation_did_key: String },
    AwaitingEncoding { handle: String, signing_did_key: String, rotation_did_key: String },
    AwaitingDid { handle: String },
    AwaitingFailureRecord { error: ProvisionError, record_context: String },
    AwaitingAccountCreation { did: String, handle: String },
    AwaitingReadyMark { did: String },
    Done,
}

/// The outcome of the last outside call; `Err` holds the failure's text.
pub enum ProvisionInput {
    Begin { handle: String },
    LinkLoaded { found: Result<Option<AccountLinkRecord>, String> },
    KeyGenerated { generated: Result<GeneratedKey, String> },
    PendingSaved { saved: Result<(), String> },
    OperationEncoded { unsigned_cbor: Vec<u8>, rotation_secret: Vec<u8> },
    DidCreated { created: Result<String, String> },
    FailureRecorded { recorded: Result<(), String> },
    AccountCreated { created: Result<(), String> },
    ReadyMarked { marked: Result<AccountLinkRecord, String> },
}

/// What the caller does next.
pub enum ProvisionAction {
    LookUpLinkByPubkey { pubkey: String },
    LookUpLinkByHandle { handle: String },
    GenerateKey { purpose: String },
    SavePendingLink { pending: PendingAccountLink },
    EncodeOperation { operation: PlcOperation },
    CreateDid { operation: PlcOperation },
    MarkLinkFailed { did: Option<String>, error: String },
    CreateAccount { did: String, handle: String },
    MarkLinkReady { did: String },
    Finish { result: Result<ProvisionResult, ProvisionError> },
}

/// Which input each state waits for.
pub open spec fn provision_accepts(state: ProvisionState, input: ProvisionInput) -> bool {
    match (state, input) {
        (ProvisionState::Start, ProvisionInput::Begin { .. }) => true,
        (ProvisionState::AwaitingLinkByPubkey { .. }, ProvisionInput::LinkLoaded { .. }) => true,
        (ProvisionState::AwaitingLinkByHandle { .. }, ProvisionInput::LinkLoaded { .. }) => true,
        (ProvisionState::AwaitingSigningKey { .. }, ProvisionInput::KeyGenerated { .. }) => true,
        (ProvisionState::AwaitingRotationKey { .. }, ProvisionInput::KeyGenerated { .. }) => true,
        (ProvisionState::AwaitingPendingSave { .. }, ProvisionInput::PendingSaved { .. }) => true,
        (ProvisionState::AwaitingEncoding { .. }, ProvisionInput::OperationEncoded { .. }) => true,
        (ProvisionState::AwaitingDid { .. }, ProvisionInput::DidCreated { .. }) => true,
        (ProvisionState::AwaitingFailureRecord { .. }, ProvisionInput::FailureRecorded { .. }) => true,
        (ProvisionState::AwaitingAccountCreation { .. }, ProvisionInput::AccountCreated { .. }) => true,
        (ProvisionState::AwaitingReadyMark { .. }, ProvisionInput::ReadyMarked { .. }) => true,
        _ => false,
    }
}

/// The provisioning finished with an error: `context`, with `cause`.
pub open spec fn fails_with(
    ns: ProvisionState,
    a: ProvisionAction,
    context: Seq<char>,
    cause: Option<Seq<char>>,
) -> bool {
    &&& ns is Done
    &&& a matches ProvisionAction::Finish { result: Err(e) } && e.context@ == context && match cause {
        None => e.cause is None,
        Some(c) => e.cause matches Some(x) && x@ == c,
    }
}

/// The provisioning finished with an account.
pub open spec fn succeeds_with(
    ns: ProvisionState,
    a: ProvisionAction,
    did: Seq<char>,
    handle: Seq<char>,
    signing_key_id: Seq<char>,
) -> bool {
    &&& ns is Done
    &&& a matches ProvisionAction::Finish { result: Ok(r) } && r.did@ == did && r.handle@ == handle
        && r.signing_key_id@ == signing_key_id
}

/// The PDS account for `did` is created next.
pub open spec fn creates_account(ns: ProvisionState, a: ProvisionAction, did: Seq<char>, handle: Seq<char>) -> bool {
    &&& ns matches ProvisionState::AwaitingAccountCreation { did: d, handle: h } && d@ == did && h@ == handle
    &&& a matches ProvisionAction::CreateAccount { did: d, handle: h } && d@ == did && h@ == handle
}

/// An existing link for the same pubkey or handle: a ready link is returned,
/// a pending or failed one is retried from its DID, a disabled one refused.
pub open spec fn resume_next(handle: Seq<char>, r: AccountLinkRecord, ns: ProvisionState, a: ProvisionAction) -> bool {
    if r.handle@ != handle {
        fails_with(ns, a, "existing link is bound to a different handle"@, None)
    } else {
        match r.provisioning_state {
            ProvisioningState::Disabled => fails_with(ns, a, "account link is disabled"@, None),
            ProvisioningState::Ready => match r.did {
                None => fails_with(ns, a, "ready link is missing a DID"@, None),
                Some(d) => succeeds_with(ns, a, d@, r.handle@, r.signing_key_id@),
            },
            _ => match r.did {
                None => fails_with(ns, a, "cannot retry a lifecycle record without a DID"@, None),
                Some(d) => creates_account(ns, a, d@, handle),
            },
        }
    }
}

/// A failure is recorded on the link before it is reported.
pub open spec fn records_failure(
    ns: ProvisionState,
    a: ProvisionAction,
    did: Option<Seq<char>>,
    context: Seq<char>,
    cause: Seq<char>,
    record_context: Seq<char>,
) -> bool {
    &&& ns matches ProvisionState::AwaitingFailureRecord { error, record_context: rc } && error.context@
        == context && (error.cause matches Some(x) && x@ == cause) && rc@ == record_context
    &&& a matches ProvisionAction::MarkLinkFailed { did: d, error: t } && t@ == context && match did {
        None => d is None,
        Some(x) => d matches Some(y) && y@ == x,
    }
}

/// The first steps: handle check and the two lookups.
pub open spec fn lookup_next(
    pubkey: Seq<char>,
    handle_domain: Seq<char>,
    state: ProvisionState,
    input: ProvisionInput,
    ns: ProvisionState,
    a: ProvisionAction,
) -> bool {
    match (state, input) {
        (ProvisionState::Start, ProvisionInput::Begin { handle }) => {
            let h = normalised_handle(handle@);
            match handle_problem(h, handle_domain_of(handle_domain)) {
                Some(m) => fails_with(ns, a, m, None),
                None => {
                    &&& ns matches ProvisionState::AwaitingLinkByPubkey { handle: x } && x@ == h
                    &&& a matches ProvisionAction::LookUpLinkByPubkey { pubkey: p } && p@ == pubkey
                },
            }
        },
        (ProvisionState::AwaitingLinkByPubkey { handle }, ProvisionInput::LinkLoaded { found }) => match found {
            Err(c) => fails_with(ns, a, "looking up link by pubkey"@, Some(c@)),
            Ok(Some(r)) => resume_next(handle@, r, ns, a),
            Ok(None) => {
                &&& ns matches ProvisionState::AwaitingLinkByHandle { handle: x } && x@ == handle@
                &&& a matches ProvisionAction::LookUpLinkByHandle { handle: y } && y@ == handle@
            },
        },
        (ProvisionState::AwaitingLinkByHandle { handle }, ProvisionInput::LinkLoaded { found }) => match found {
            Err(c) => fails_with(ns, a, "looking up link by handle"@, Some(c@)),
            Ok(Some(r)) => if r.nostr_pubkey@ != pubkey {
                fails_with(ns, a, "handle already taken: "@ + handle@, None)
            } else {
                resume_next(handle@, r, ns, a)
            },
            Ok(None) => {
                &&& ns matches ProvisionState::AwaitingSigningKey { handle: x } && x@ == handle@
                &&& a matches ProvisionAction::GenerateKey { purpose } && purpose@ == "signing-key"@
            },
        },
        _ => false,
    }
}

/// The steps that create a new identity.
pub open spec fn create_next(
    pubkey: Seq<char>,
    endpoint: Seq<char>,
    state: ProvisionState,
    input: ProvisionInput,
    ns: ProvisionState,
    a: ProvisionAction,
) -> bool {
    match (state, input) {
        (ProvisionState::AwaitingSigningKey { handle }, ProvisionInput::KeyGenerated { generated }) => match generated {
            Err(c) => fails_with(ns, a, "generating AT signing keypair"@, Some(c@)),
            Ok(k) => {
                &&& ns matches ProvisionState::AwaitingRotationKey { handle: x, signing_key_id, signing_did_key }
                    && x@ == handle@ && signing_key_id@ == k.key_id@ && signing_did_key@ == did_key_spec(
                    k.public_key@,
                )
                &&& a matches ProvisionAction::GenerateKey { purpose } && purpose@ == "plc-rotation-key"@
            },
        },
        (
            ProvisionState::AwaitingRotationKey { handle, signing_key_id, signing_did_key },
            ProvisionInput::KeyGenerated { generated },
        ) => match generated {
            Err(c) => fails_with(ns, a, "generating PLC rotation keypair"@, Some(c@)),
            Ok(k) => {
                &&& ns matches ProvisionState::AwaitingPendingSave { handle: x, signing_did_key: s, rotation_did_key: r }
                    && x@ == handle@ && s@ == signing_did_key@ && r@ == did_key_spec(k.public_key@)
                &&& a matches ProvisionAction::SavePendingLink { pending } && pending.nostr_pubkey@ == pubkey
                    && pending.did is None && pending.handle@ == handle@ && !pending.crosspost_enabled
                    && pending.signing_key_id@ == signing_key_id@ && pending.plc_rotation_key_ref@
                    == k.key_id@
            },
        },
        (
            ProvisionState::AwaitingPendingSave { handle, signing_did_key, rotation_did_key },
            ProvisionInput::PendingSaved { saved },
        ) => match saved {
            Err(c) => fails_with(ns, a, "saving pending account link"@, Some(c@)),
            Ok(_) => {
                &&& ns matches ProvisionState::AwaitingEncoding { handle: x, signing_did_key: s, rotation_did_key: r }
                    && x@ == handle@ && s@ == signing_did_key@ && r@ == rotation_did_key@
                &&& a matches ProvisionAction::EncodeOperation { operation } && plc_operation_for(
                    operation,
                    handle@,
                    signing_did_key@,
                    rotation_did_key@,
                    endpoint,
                    Seq::empty(),
                )
            },
        },
        (
            ProvisionState::AwaitingEncoding { handle, signing_did_key, rotation_did_key },
            ProvisionInput::OperationEncoded { unsigned_cbor, rotation_secret },
        ) => if !(rotation_secret@.len() == 32 && secret_key_valid(rotation_secret@)) {
            fails_with(ns, a, "signing PLC operation"@, Some("invalid secret key"@))
        } else {
            &&& ns matches ProvisionState::AwaitingDid { handle: x } && x@ == handle@
            &&& a matches ProvisionAction::CreateDid { operation } && plc_operation_for(
                operation,
                handle@,
                signing_did_key@,
                rotation_did_key@,
                endpoint,
                plc_signature_spec(unsigned_cbor@, rotation_secret@),
            )
        },
        (ProvisionState::AwaitingDid { handle }, ProvisionInput::DidCreated { created }) => match created {
            Err(c) => records_failure(
                ns,
                a,
                None,
                "creating did:plc via PLC directory"@,
                c@,
                "recording PLC provisioning failure"@,
            ),
            Ok(d) => creates_account(ns, a, d@, handle@),
        },
        _ => false,
    }
}

/// One step of provisioning `pubkey`.
pub open spec fn provision_next(
    pubkey: Seq<char>,
    handle_domain: Seq<char>,
    endpoint: Seq<char>,
    state: ProvisionState,
    input: ProvisionInput,
    ns: ProvisionState,
    a: ProvisionAction,
) -> bool {
    match (state, input) {
        (ProvisionState::Start, _) => lookup_next(pubkey, handle_domain, state, input, ns, a),
        (ProvisionState::AwaitingLinkByPubkey { .. }, _) => lookup_next(pubkey, handle_domain, state, input, ns, a),
        (ProvisionState::AwaitingLinkByHandle { .. }, _) => lookup_next(pubkey, handle_domain, state, input, ns, a),
        (ProvisionState::AwaitingFailureRecord { error, record_context }, ProvisionInput::FailureRecorded { recorded }) => match recorded {
            Ok(_) => {
                &&& ns is Done
                &&& a matches ProvisionAction::Finish { result: Err(e) } && e == error
            },
            Err(c) => fails_with(ns, a, record_context@, Some(c@)),
        },
        (ProvisionState::AwaitingAccountCreation { did, handle }, ProvisionInput::AccountCreated { created }) => match created {
            Ok(_) => {
                &&& ns matches ProvisionState::AwaitingReadyMark { did: x } && x@ == did@
                &&& a matches ProvisionAction::MarkLinkReady { did: y } && y@ == did@
            },
            Err(c) => records_failure(
                ns,
                a,
                Some(did@),
                "creating account on PDS"@,
                c@,
                "recording PDS provisioning failure"@,
            ),
        },
        (ProvisionState::AwaitingReadyMark { did }, ProvisionInput::ReadyMarked { marked }) => match marked {
            Err(c) => fails_with(ns, a, "marking account link ready"@, Some(c@)),
            Ok(r) => succeeds_with(ns, a, did@, r.handle@, r.signing_key_id@),
        },
        _ => create_next(pubkey, endpoint, state, input, ns, a),
    }
}

/// Finish with an error.
fn fail_provision(context: String, cause: Option<String>) -> (res: (ProvisionState, ProvisionAction))
    ensures
        fails_with(
            res.0,
            res.1,
            context@,
            match cause {
                None => None,
                Some(c) => Some(c@),
            },
        ),
{
    (ProvisionState::Done, ProvisionAction::Finish { result: Err(ProvisionError { context, cause }) })
}

/// Resume or refuse an existing link.
fn resume_step(handle: String, r: AccountLinkRecord) -> (res: (ProvisionState, ProvisionAction))
    ensures
        resume_next(handle@, r, res.0, res.1),
{
    if !str_equal(r.handle.as_str(), handle.as_str()) {
        return fail_provision("existing link is bound to a different handle".to_string(), None);
    }
    match r.provisioning_state {
        ProvisioningState::Disabled => fail_provision("account link is disabled".to_string(), None),
        ProvisioningState::Ready => match r.did {
            None => fail_provision("ready link is missing a DID".to_string(), None),
            Some(did) => (
                ProvisionState::Done,
                ProvisionAction::Finish {
                    result: Ok(ProvisionResult { did, handle: r.handle, signing_key_id: r.signing_key_id }),
                },
            ),
        },
        _ => match r.did {
            None => fail_provision("cannot retry a lifecycle record without a DID".to_string(), None),
            Some(did) => {
                let d = did.clone();
                let h = handle.clone();
                (ProvisionState::AwaitingAccountCreation { did, handle }, ProvisionAction::CreateAccount { did: d, handle: h })
            },
        },
    }
}

/// The handle check and lookup steps.
fn lookup_step(pubkey: &str, handle_domain: &str, state: ProvisionState, input: ProvisionInput) -> (res: (
    ProvisionState,
    ProvisionAction,
))
    requires
        provision_accepts(state, input),
        state is Start || state is AwaitingLinkByPubkey || state is AwaitingLinkByHandle,
    ensures
        lookup_next(pubkey@, handle_domain@, state, input, res.0, res.1),
{
    match (state, input) {
        (ProvisionState::Start, ProvisionInput::Begin { handle }) => {
            let h = normalise_handle(handle.as_str());
            match validate_handle(h.as_str(), handle_domain) {
                Err(m) => fail_provision(m, None),
                Ok(()) => (
                    ProvisionState::AwaitingLinkByPubkey { handle: h },
                    ProvisionAction::LookUpLinkByPubkey { pubkey: pubkey.to_string() },
                ),
            }
        },
        (ProvisionState::AwaitingLinkByPubkey { handle }, ProvisionInput::LinkLoaded { found }) => match found {
            Err(c) => fail_provision("looking up link by pubkey".to_string(), Some(c)),
            Ok(Some(r)) => resume_step(handle, r),
            Ok(None) => {
                let h = handle.clone();
                (ProvisionState::AwaitingLinkByHandle { handle }, ProvisionAction::LookUpLinkByHandle { handle: h })
            },
        },
        (ProvisionState::AwaitingLinkByHandle { handle }, ProvisionInput::LinkLoaded { found }) => match found {
            Err(c) => fail_provision("looking up link by handle".to_string(), Some(c)),
            Ok(Some(r)) => {
                if !str_equal(r.nostr_pubkey.as_str(), pubkey) {
                    let mut m = "handle already taken: ".to_string();
                    push_all(&mut m, handle.as_str());
                    fail_provision(m, None)
                } else {
                    resume_step(handle, r)
                }
            },
            Ok(None) => (
                ProvisionState::AwaitingSigningKey { handle },
                ProvisionAction::GenerateKey { purpose: "signing-key".to_string() },
            ),
        },
        _ => fail_provision(String::new(), None),
    }
}

/// The identity-creation steps.
fn create_step(pubkey: &str, pds_endpoint: &str, state: ProvisionState, input: ProvisionInput) -> (res: (
    ProvisionState,
    ProvisionAction,
))
    requires
        provision_accepts(state, input),
        state is AwaitingSigningKey || state is AwaitingRotationKey || state is AwaitingPendingSave
            || state is AwaitingEncoding || state is AwaitingDid,
    ensures
        create_next(pubkey@, pds_endpoint@, state, input, res.0, res.1),
{
    match (state, input) {
        (ProvisionState::AwaitingSigningKey { handle }, ProvisionInput::KeyGenerated { generated }) => match generated {
            Err(c) => fail_provision("generating AT signing keypair".to_string(), Some(c)),
            Ok(k) => {
                let signing_did_key = pubkey_to_did_key(k.public_key.as_slice());
                (
                    ProvisionState::AwaitingRotationKey { handle, signing_key_id: k.key_id, signing_did_key },
                    ProvisionAction::GenerateKey { purpose: "plc-rotation-key".to_string() },
                )
            },
        },
        (
            ProvisionState::AwaitingRotationKey { handle, signing_key_id, signing_did_key },
            ProvisionInput::KeyGenerated { generated },
        ) => match generated {
            Err(c) => fail_provision("generating PLC rotation keypair".to_string(), Some(c)),
            Ok(k) => {
                let rotation_did_key = pubkey_to_did_key(k.public_key.as_slice());
                let pending = PendingAccountLink {
                    nostr_pubkey: pubkey.to_string(),
                    did: None,
                    handle: handle.clone(),
                    crosspost_enabled: false,
                    signing_key_id,
                    plc_rotation_key_ref: k.key_id,
                };
                (
                    ProvisionState::AwaitingPendingSave { handle, signing_did_key, rotation_did_key },
                    ProvisionAction::SavePendingLink { pending },
                )
            },
        },
        (
            ProvisionState::AwaitingPendingSave { handle, signing_did_key, rotation_did_key },
            ProvisionInput::PendingSaved { saved },
        ) => match saved {
            Err(c) => fail_provision("saving pending account link".to_string(), Some(c)),
            Ok(_) => {
                let operation = build_plc_operation(
                    handle.as_str(),
                    signing_did_key.clone(),
                    rotation_did_key.clone(),
                    pds_endpoint,
                );
                (
                    ProvisionState::AwaitingEncoding { handle, signing_did_key, rotation_did_key },
                    ProvisionAction::EncodeOperation { operation },
                )
            },
        },
        (
            ProvisionState::AwaitingEncoding { handle, signing_did_key, rotation_did_key },
            ProvisionInput::OperationEncoded { unsigned_cbor, rotation_secret },
        ) => match sign_plc_operation(unsigned_cbor.as_slice(), rotation_secret.as_slice()) {
            None => fail_provision("signing PLC operation".to_string(), Some("invalid secret key".to_string())),
            Some(sig) => {
                let mut operation = build_plc_operation(
                    handle.as_str(),
                    signing_did_key,
                    rotation_did_key,
                    pds_endpoint,
                );
                operation.sig = sig;
                (ProvisionState::AwaitingDid { handle }, ProvisionAction::CreateDid { operation })
            },
        },
        (ProvisionState::AwaitingDid { handle }, ProvisionInput::DidCreated { created }) => match created {
            Err(c) => {
                let context = "creating did:plc via PLC directory".to_string();
                let text = context.clone();
                (
                    ProvisionState::AwaitingFailureRecord {
                        error: ProvisionError { context, cause: Some(c) },
                        record_context: "recording PLC provisioning failure".to_string(),
                    },
                    ProvisionAction::MarkLinkFailed { did: None, error: text },
                )
            },
            Ok(did) => {
                let d = did.clone();
                let h = handle.clone();
                (ProvisionState::AwaitingAccountCreation { did, handle }, ProvisionAction::CreateAccount { did: d, handle: h })
            },
        },
        _ => fail_provision(String::new(), None),
    }
}

/// Decide the next step of provisioning `pubkey`, given where it stands and
/// the outcome of the last outside call.
pub fn provision_step(
    pubkey: &str,
    handle_domain: &str,
    pds_endpoint: &str,
    state: ProvisionState,
    input: ProvisionInput,
) -> (res: (ProvisionState, ProvisionAction))
    requires
        provision_accepts(state, input),
    ensures
        provision_next(pubkey@, handle_domain@, pds_endpoint@, state, input, res.0, res.1),
{
    match state {
        ProvisionState::Start => lookup_step(pubkey, handle_domain, state, input),
        ProvisionState::AwaitingLinkByPubkey { .. } => lookup_step(pubkey, handle_domain, state, input),
        ProvisionState::AwaitingLinkByHandle { .. } => lookup_step(pubkey, handle_domain, state, input),
        ProvisionState::AwaitingFailureRecord { error, record_context } => match input {
            ProvisionInput::FailureRecorded { recorded } => match recorded {
                Ok(_) => (ProvisionState::Done, ProvisionAction::Finish { result: Err(error) }),
                Err(c) => fail_provision(record_context, Some(c)),
            },
            _ => fail_provision(String::new(), None),
        },
        ProvisionState::AwaitingAccountCreation { did, handle } => match input {
            ProvisionInput::AccountCreated { created } => match created {
                Ok(_) => {
                    let d = did.clone();
                    (ProvisionState::AwaitingReadyMark { did }, ProvisionAction::MarkLinkReady { did: d })
                },
                Err(c) => {
                    let context = "creating account on PDS".to_string();
                    let text = context.clone();
                    (
                        ProvisionState::AwaitingFailureRecord {
                            error: ProvisionError { context, cause: Some(c) },
                            record_context: "recording PDS provisioning failure".to_string(),
                        },
                        ProvisionAction::MarkLinkFailed { did: Some(did), error: text },
                    )
                },
            },
            _ => fail_provision(String::new(), None),
        },
        ProvisionState::AwaitingReadyMark { did } => match input {
            ProvisionInput::ReadyMarked { marked } => match marked {
                Err(c) => fail_provision("marking account link ready".to_string(), Some(c)),
                Ok(r) => (
                    ProvisionState::Done,
                    ProvisionAction::Finish {
                        result: Ok(ProvisionResult { did, handle: r.handle, signing_key_id: r.signing_key_id }),
                    },
                ),
            },
            _ => fail_provision(String::new(), None),
        },
        _ => create_step(pubkey, pds_endpoint, state, input),
    }
}

/// A handle linked to another pubkey is never taken over: the provisioning
/// ends in an error, with no key generated and no account created.
pub proof fn foreign_handle_is_never_taken(
    pubkey: Seq<char>,
    handle_domain: Seq<char>,
    endpoint: Seq<char>,
    handle: String,
    r: AccountLinkRecord,
    ns: ProvisionState,
    a: ProvisionAction,
)
    requires
        r.nostr_pubkey@ != pubkey,
        provision_next(
            pubkey,
            handle_domain,
            endpoint,
            ProvisionState::AwaitingLinkByHandle { handle },
            ProvisionInput::LinkLoaded { found: Ok(Some(r)) },
            ns,
            a,
        ),
    ensures
        ns is Done,
        a matches ProvisionAction::Finish { result: Err(e) } && e.context@ == "handle already taken: "@
            + handle@,
{
}

/// A disabled link is never resumed, whether found by pubkey or by handle.
pub proof fn disabled_link_is_never_resumed(handle: Seq<char>, r: AccountLinkRecord, ns: ProvisionState, a: ProvisionAction)
    requires
        r.provisioning_state == ProvisioningState::Disabled,
        resume_next(handle, r, ns, a),
    ensures
        ns is Done,
        a matches ProvisionAction::Finish { result: Err(_) },
{
}

/// New keys are generated only once neither the pubkey nor the handle has a
/// link.
pub proof fn keys_only_for_unlinked_accounts(
    pubkey: Seq<char>,
    handle_domain: Seq<char>,
    endpoint: Seq<char>,
    s: ProvisionState,
    i: ProvisionInput,
    ns: ProvisionState,
    a: ProvisionAction,
)
    requires
        provision_next(pubkey, handle_domain, endpoint, s, i, ns, a),
        a matches ProvisionAction::GenerateKey { purpose } && purpose@ == "signing-key"@,
    ensures
        s is AwaitingLinkByHandle,
        i matches ProvisionInput::LinkLoaded { found: Ok(None) },
{
    reveal_strlit("signing-key");
    reveal_strlit("plc-rotation-key");
    assert("signing-key"@.len() != "plc-rotation-key"@.len());
    assert("signing-key"@ != "plc-rotation-key"@);
}

} // verus!
