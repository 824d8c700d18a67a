//! The bridge pipeline: signature check, account lookup, idempotency,
//! blob transfer, translation and record write for video events, and owner-
//! checked deletion for kind-5 events.
//!
//! Stores, blob transfer and the PDS are the caller's. `pipeline_step` takes
//! where an event stands and the outcome of the last outside call, and says
//! where it stands now and what to do next, until it names the result.

use vstd::prelude::*;
use crate::chars::{decimal_text, push_all, u64_to_decimal};
use crate::deletion::validate_delete_request;
use crate::event::{
    first_imeta_url_is_video_url, first_url_entry_at, get_deleted_event_id, get_video_url, has_no_url_tag,
    tag_value, video_url, BlobRef, NostrEvent,
};
use crate::signature::{signature_error_text, verification_result, verify_nostr_event};
use crate::translator::{derive_rkey, rkey_spec, translate_nip71_to_post, translated_post, AtProtoPost};

verus! {

/// Links a Nostr pubkey to an AT Protocol DID.
#[derive(Debug, Clone, PartialEq, Eq)]
pub struct AccountLink {
    pub nostr_pubkey: String,
    pub did: String,
    pub opted_in: bool,
}

/// Maps a bridged Nostr event to its AT Protocol record.
#[derive(Debug, Clone, PartialEq, Eq)]
pub struct RecordMapping {
    pub nostr_event_id: String,
    pub at_uri: String,
    pub did: String,
    pub collection: String,
    pub rkey: String,
    pub deleted: bool,
}

/// Result of processing a single Nostr event through the pipeline.
#[derive(Debug, Clone, PartialEq, Eq)]
pub enum ProcessResult {
    Published { at_uri: String, rkey: String },
    Deleted { at_uri: String },
    Skipped { reason: String },
    Error { message: String },
}

/// The pipeline's outside collaborators.
pub struct BridgePipeline<A, R, F, U, P> {
    pub account_store: A,
    pub record_store: R,
    pub blob_fetcher: F,
    pub blob_uploader: U,
    pub pds_publisher: P,
}

impl<A, R, F, U, P> BridgePipeline<A, R, F, U, P> {
    pub fn new(
        account_store: A,
        record_store: R,
        blob_fetcher: F,
        blob_uploader: U,
        pds_publisher: P,
    ) -> (p: Self)
        ensures
            p.account_store == account_store,
            p.record_store == record_store,
            p.blob_fetcher == blob_fetcher,
            p.blob_uploader == blob_uploader,
            p.pds_publisher == pds_publisher,
    {
        BridgePipeline { account_store, record_store, blob_fetcher, blob_uploader, pds_publisher }
    }
}

/// Where an event stands in the pipeline.
pub enum PipelineState {
    Verifying,
    AwaitingAccount,
    AwaitingProcessedCheck { account: AccountLink },
    AwaitingBlob { account: AccountLink },
    AwaitingUpload { account: AccountLink },
    AwaitingWrite { account: AccountLink, rkey: String },
    AwaitingSave { at_uri: String, rkey: String },
    AwaitingMapping { account: AccountLink, target_id: String },
    AwaitingDelete { target_id: String, at_uri: String },
    AwaitingMarkDeleted { at_uri: String },
    Finished,
}

/// The outcome of the last outside call; `Err` holds the failure's text.
pub enum PipelineInput {
    Start,
    AccountLinkLoaded { lookup: Result<Option<AccountLink>, String> },
    ProcessedChecked { checked: Result<bool, String> },
    BlobFetched { fetched: Result<(), String> },
    BlobUploaded { uploaded: Result<BlobRef, String> },
    RecordWritten { written: Result<String, String> },
    MappingSaved { saved: Result<(), String> },
    MappingLoaded { lookup: Result<Option<RecordMapping>, String> },
    RecordDeleted { deleted: Result<(), String> },
    MarkedDeleted { marked: Result<(), String> },
}

/// What the caller does next.
pub enum PipelineAction {
    LookUpAccount { pubkey: String },
    CheckProcessed { event_id: String },
    FetchBlob { url: String },
    UploadBlob,
    PutRecord { did: String, collection: String, rkey: String, post: AtProtoPost },
    SaveMapping { mapping: RecordMapping },
    LookUpMapping { event_id: String },
    DeleteRecord { did: String, collection: String, rkey: String },
    MarkDeleted { event_id: String },
    Finish { result: ProcessResult },
}

/// Which input each state waits for.
pub open spec fn pipeline_accepts(state: PipelineState, input: PipelineInput) -> bool {
    match (state, input) {
        (PipelineState::Verifying, PipelineInput::Start) => true,
        (PipelineState::AwaitingAccount, PipelineInput::AccountLinkLoaded { .. }) => true,
        (PipelineState::AwaitingProcessedCheck { .. }, PipelineInput::ProcessedChecked { .. }) => true,
        (PipelineState::AwaitingBlob { .. }, PipelineInput::BlobFetched { .. }) => true,
        (PipelineState::AwaitingUpload { .. }, PipelineInput::BlobUploaded { .. }) => true,
        (PipelineState::AwaitingWrite { .. }, PipelineInput::RecordWritten { .. }) => true,
        (PipelineState::AwaitingSave { .. }, PipelineInput::MappingSaved { .. }) => true,
        (PipelineState::AwaitingMapping { .. }, PipelineInput::MappingLoaded { .. }) => true,
        (PipelineState::AwaitingDelete { .. }, PipelineInput::RecordDeleted { .. }) => true,
        (PipelineState::AwaitingMarkDeleted { .. }, PipelineInput::MarkedDeleted { .. }) => true,
        _ => false,
    }
}

/// The collection that bridged posts are written to.
pub open spec fn post_collection() -> Seq<char> {
    "app.bsky.feed.post"@
}

/// The NIP-71 video event kinds.
pub open spec fn is_video_kind(kind: u64) -> bool {
    kind == 34235 || kind == 34236
}

/// The event verifies: its id matches and its signature is valid.
pub open spec fn verified(e: NostrEvent) -> bool {
    verification_result(e) == Ok::<bool, crate::signature::SignatureError>(true)
}

/// The pipeline finished, skipping the event for `reason`.
pub open spec fn skipped(ns: PipelineState, a: PipelineAction, reason: Seq<char>) -> bool {
    &&& ns is Finished
    &&& a matches PipelineAction::Finish { result: ProcessResult::Skipped { reason: r } } && r@ == reason
}

/// The pipeline finished with an error whose text is `message`.
pub open spec fn errored(ns: PipelineState, a: PipelineAction, message: Seq<char>) -> bool {
    &&& ns is Finished
    &&& a matches PipelineAction::Finish { result: ProcessResult::Error { message: m } } && m@ == message
}

/// The signature step: a verified event goes on to the account lookup; a
/// mismatched id or bad signature, or an event that could not be checked,
/// is skipped.
pub open spec fn verify_next(e: NostrEvent, ns: PipelineState, a: PipelineAction) -> bool {
    match verification_result(e) {
        Ok(true) => {
            &&& ns is AwaitingAccount
            &&& a matches PipelineAction::LookUpAccount { pubkey } && pubkey@ == e.pubkey@
        },
        Ok(false) => skipped(ns, a, "invalid signature"@),
        Err(x) => skipped(ns, a, "signature verification error: "@ + signature_error_text(x)),
    }
}

/// The account step: an opted-in account goes on to the deletion lookup
/// (kind 5) or to the idempotency check.
pub open spec fn account_next(
    e: NostrEvent,
    lookup: Result<Option<AccountLink>, String>,
    ns: PipelineState,
    a: PipelineAction,
) -> bool {
    match lookup {
        Err(c) => errored(ns, a, "failed to look up account link: "@ + c@),
        Ok(None) => skipped(ns, a, "unknown pubkey — no account link"@),
        Ok(Some(l)) => if !l.opted_in {
            skipped(ns, a, "user has not opted in"@)
        } else if e.kind == 5 {
            match tag_value(e.tags_view(), "e"@) {
                None => skipped(ns, a, "deletion event has no 'e' tag"@),
                Some(t) => {
                    &&& ns matches PipelineState::AwaitingMapping { account, target_id } && account == l
                        && target_id@ == t
                    &&& a matches PipelineAction::LookUpMapping { event_id } && event_id@ == t
                },
            }
        } else {
            &&& ns matches PipelineState::AwaitingProcessedCheck { account } && account == l
            &&& a matches PipelineAction::CheckProcessed { event_id } && event_id@ == e.id@
        },
    }
}

/// The idempotency step: a new video event goes on to fetch its video.
pub open spec fn processed_next(
    e: NostrEvent,
    account: AccountLink,
    checked: Result<bool, String>,
    ns: PipelineState,
    a: PipelineAction,
) -> bool {
    match checked {
        Err(c) => errored(ns, a, "failed to check idempotency: "@ + c@),
        Ok(true) => skipped(ns, a, "event already processed"@),
        Ok(false) => if is_video_kind(e.kind) {
            match video_url(e.tags_view()) {
                None => errored(ns, a, "no video URL found in event"@),
                Some(u) => {
                    &&& ns matches PipelineState::AwaitingBlob { account: acc } && acc == account
                    &&& a matches PipelineAction::FetchBlob { url } && url@ == u
                },
            }
        } else {
            skipped(ns, a, "unsupported event kind: "@ + decimal_text(e.kind as nat))
        },
    }
}

/// The upload step: the post built from the event and the uploaded
/// blob is written under the event's record key in the linked repo.
pub open spec fn upload_next(
    e: NostrEvent,
    account: AccountLink,
    uploaded: Result<BlobRef, String>,
    ns: PipelineState,
    a: PipelineAction,
) -> bool {
    match uploaded {
        Err(c) => errored(ns, a, "failed to upload blob to PDS: "@ + c@),
        Ok(b) => {
            &&& ns matches PipelineState::AwaitingWrite { account: acc, rkey } && acc == account
                && rkey@ == rkey_spec(e.tags_view(), e.id@)
            &&& a matches PipelineAction::PutRecord { did, collection, rkey, post } && did@
                == account.did@ && collection@ == post_collection() && rkey@ == rkey_spec(
                e.tags_view(),
                e.id@,
            ) && translated_post(post, e, b)
        },
    }
}

/// The write step: the written record's mapping is saved.
pub open spec fn write_next(
    e: NostrEvent,
    account: AccountLink,
    rkey: String,
    written: Result<String, String>,
    ns: PipelineState,
    a: PipelineAction,
) -> bool {
    match written {
        Err(c) => errored(ns, a, "failed to write record to PDS: "@ + c@),
        Ok(uri) => {
            &&& ns matches PipelineState::AwaitingSave { at_uri, rkey: k } && at_uri@ == uri@ && k@
                == rkey@
            &&& a matches PipelineAction::SaveMapping { mapping } && mapping.nostr_event_id@ == e.id@
                && mapping.at_uri@ == uri@ && mapping.did@ == account.did@ && mapping.collection@
                == post_collection() && mapping.rkey@ == rkey@ && !mapping.deleted
        },
    }
}

/// The mapping step of a deletion: only a live record owned by the linked
/// account is deleted.
pub open spec fn mapping_next(
    account: AccountLink,
    target_id: String,
    lookup: Result<Option<RecordMapping>, String>,
    ns: PipelineState,
    a: PipelineAction,
) -> bool {
    match lookup {
        Err(c) => errored(ns, a, "failed to look up record mapping: "@ + c@),
        Ok(None) => skipped(ns, a, "no record mapping found for deleted event"@),
        Ok(Some(m)) => if m.deleted {
            skipped(ns, a, "record already deleted"@)
        } else if account.did@ != m.did@ {
            skipped(ns, a, "deleting account does not own the target record"@)
        } else {
            &&& ns matches PipelineState::AwaitingDelete { target_id: t, at_uri } && t@ == target_id@
                && at_uri@ == m.at_uri@
            &&& a matches PipelineAction::DeleteRecord { did, collection, rkey } && did@ == m.did@
                && collection@ == m.collection@ && rkey@ == m.rkey@
        },
    }
}

/// One step of the pipeline for the event `e`.
pub open spec fn pipeline_next(
    e: NostrEvent,
    state: PipelineState,
    input: PipelineInput,
    ns: PipelineState,
    a: PipelineAction,
) -> bool {
    match (state, input) {
        (PipelineState::Verifying, PipelineInput::Start) => verify_next(e, ns, a),
        (PipelineState::AwaitingAccount, PipelineInput::AccountLinkLoaded { lookup }) => account_next(
            e,
            lookup,
            ns,
            a,
        ),
        (
            PipelineState::AwaitingProcessedCheck { account },
            PipelineInput::ProcessedChecked { checked },
        ) => processed_next(e, account, checked, ns, a),
        (PipelineState::AwaitingBlob { account }, PipelineInput::BlobFetched { fetched }) => match fetched {
            Err(c) => errored(ns, a, "failed to fetch blob: "@ + c@),
            Ok(_) => {
                &&& ns matches PipelineState::AwaitingUpload { account: acc } && acc == account
                &&& a is UploadBlob
            },
        },
        (PipelineState::AwaitingUpload { account }, PipelineInput::BlobUploaded { uploaded }) => upload_next(
            e,
            account,
            uploaded,
            ns,
            a,
        ),
        (PipelineState::AwaitingWrite { account, rkey }, PipelineInput::RecordWritten { written }) => write_next(
            e,
            account,
            rkey,
            written,
            ns,
            a,
        ),
        (PipelineState::AwaitingSave { at_uri, rkey }, PipelineInput::MappingSaved { saved }) => match saved {
            Err(c) => errored(ns, a, "failed to save record mapping: "@ + c@),
            Ok(_) => {
                &&& ns is Finished
                &&& a matches PipelineAction::Finish {
                    result: ProcessResult::Published { at_uri: u, rkey: k },
                } && u@ == at_uri@ && k@ == rkey@
            },
        },
        (
            PipelineState::AwaitingMapping { account, target_id },
            PipelineInput::MappingLoaded { lookup },
        ) => mapping_next(account, target_id, lookup, ns, a),
        (PipelineState::AwaitingDelete { target_id, at_uri }, PipelineInput::RecordDeleted { deleted }) => match deleted {
            Err(c) => errored(ns, a, "failed to delete record from PDS: "@ + c@),
            Ok(_) => {
                &&& ns matches PipelineState::AwaitingMarkDeleted { at_uri: u } && u@ == at_uri@
                &&& a matches PipelineAction::MarkDeleted { event_id } && event_id@ == target_id@
            },
        },
        (PipelineState::AwaitingMarkDeleted { at_uri }, PipelineInput::MarkedDeleted { marked }) => match marked {
            Err(c) => errored(ns, a, "failed to mark record as deleted: "@ + c@),
            Ok(_) => {
                &&& ns is Finished
                &&& a matches PipelineAction::Finish { result: ProcessResult::Deleted { at_uri: u } }
                    && u@ == at_uri@
            },
        },
        _ => false,
    }
}

/// `prefix` followed by `cause`.
fn prefixed(prefix: &str, cause: &str) -> (s: String)
    ensures
        s@ == prefix@ + cause@,
{
    let mut s = prefix.to_string();
    push_all(&mut s, cause);
    s
}

/// Finish, skipping the event for `reason`.
fn skip(reason: String) -> (res: (PipelineState, PipelineAction))
    ensures
        skipped(res.0, res.1, reason@),
{
    (PipelineState::Finished, PipelineAction::Finish { result: ProcessResult::Skipped { reason } })
}

/// Finish with an error whose text is `message`.
fn fail(message: String) -> (res: (PipelineState, PipelineAction))
    ensures
        errored(res.0, res.1, message@),
{
    (PipelineState::Finished, PipelineAction::Finish { result: ProcessResult::Error { message } })
}

/// The signature step.
fn verify_step(event: &NostrEvent) -> (res: (PipelineState, PipelineAction))
    ensures
        verify_next(*event, res.0, res.1),
{
    match verify_nostr_event(event) {
        Ok(true) => (PipelineState::AwaitingAccount, PipelineAction::LookUpAccount { pubkey: event.pubkey.clone() }),
        Ok(false) => skip("invalid signature".to_string()),
        Err(e) => {
            let text = e.message();
            skip(prefixed("signature verification error: ", text.as_str()))
        },
    }
}

/// The account step.
fn account_step(event: &NostrEvent, lookup: Result<Option<AccountLink>, String>) -> (res: (
    PipelineState,
    PipelineAction,
))
    ensures
        account_next(*event, lookup, res.0, res.1),
{
    match lookup {
        Err(c) => fail(prefixed("failed to look up account link: ", c.as_str())),
        Ok(None) => skip("unknown pubkey — no account link".to_string()),
        Ok(Some(account)) => {
            if !account.opted_in {
                skip("user has not opted in".to_string())
            } else if event.kind == 5 {
                match get_deleted_event_id(event) {
                    None => skip("deletion event has no 'e' tag".to_string()),
                    Some(t) => {
                        let event_id = t.clone();
                        (
                            PipelineState::AwaitingMapping { account, target_id: t },
                            PipelineAction::LookUpMapping { event_id },
                        )
                    },
                }
            } else {
                (
                    PipelineState::AwaitingProcessedCheck { account },
                    PipelineAction::CheckProcessed { event_id: event.id.clone() },
                )
            }
        },
    }
}

/// The idempotency step.
fn processed_step(event: &NostrEvent, account: AccountLink, checked: Result<bool, String>) -> (res: (
    PipelineState,
    PipelineAction,
))
    ensures
        processed_next(*event, account, checked, res.0, res.1),
{
    match checked {
        Err(c) => fail(prefixed("failed to check idempotency: ", c.as_str())),
        Ok(true) => skip("event already processed".to_string()),
        Ok(false) => {
            if event.kind == 34235 || event.kind == 34236 {
                match get_video_url(event) {
                    None => fail("no video URL found in event".to_string()),
                    Some(url) => (PipelineState::AwaitingBlob { account }, PipelineAction::FetchBlob { url }),
                }
            } else {
                let kind = u64_to_decimal(event.kind);
                skip(prefixed("unsupported event kind: ", kind.as_str()))
            }
        },
    }
}

/// The upload step.
fn upload_step(event: &NostrEvent, account: AccountLink, uploaded: Result<BlobRef, String>) -> (res: (
    PipelineState,
    PipelineAction,
))
    ensures
        upload_next(*event, account, uploaded, res.0, res.1),
{
    match uploaded {
        Err(c) => fail(prefixed("failed to upload blob to PDS: ", c.as_str())),
        Ok(blob) => match translate_nip71_to_post(event, &blob) {
            Ok(post) => {
                let rkey = derive_rkey(event);
                let did = account.did.clone();
                let action = PipelineAction::PutRecord {
                    did,
                    collection: "app.bsky.feed.post".to_string(),
                    rkey: rkey.clone(),
                    post,
                };
                (PipelineState::AwaitingWrite { account, rkey }, action)
            },
            Err(_) => fail("failed to translate event to ATProto post".to_string()),
        },
    }
}

/// The write step.
fn write_step(event: &NostrEvent, account: AccountLink, rkey: String, written: Result<String, String>) -> (res: (
    PipelineState,
    PipelineAction,
))
    ensures
        write_next(*event, account, rkey, written, res.0, res.1),
{
    match written {
        Err(c) => fail(prefixed("failed to write record to PDS: ", c.as_str())),
        Ok(at_uri) => {
            let mapping = RecordMapping {
                nostr_event_id: event.id.clone(),
                at_uri: at_uri.clone(),
                did: account.did.clone(),
                collection: "app.bsky.feed.post".to_string(),
                rkey: rkey.clone(),
                deleted: false,
            };
            (PipelineState::AwaitingSave { at_uri, rkey }, PipelineAction::SaveMapping { mapping })
        },
    }
}

/// The mapping step of a deletion.
fn mapping_step(account: AccountLink, target_id: String, lookup: Result<Option<RecordMapping>, String>) -> (res: (
    PipelineState,
    PipelineAction,
))
    ensures
        mapping_next(account, target_id, lookup, res.0, res.1),
{
    match lookup {
        Err(c) => fail(prefixed("failed to look up record mapping: ", c.as_str())),
        Ok(None) => skip("no record mapping found for deleted event".to_string()),
        Ok(Some(m)) => {
            if m.deleted {
                skip("record already deleted".to_string())
            } else {
                match validate_delete_request(account.did.as_str(), m.did.as_str()) {
                    Err(err) => skip(err.message()),
                    Ok(()) => (
                        PipelineState::AwaitingDelete { target_id, at_uri: m.at_uri },
                        PipelineAction::DeleteRecord { did: m.did, collection: m.collection, rkey: m.rkey },
                    ),
                }
            }
        },
    }
}

/// Decide the next step for `event`, given where it stands and the outcome
/// of the last outside call.
pub fn pipeline_step(event: &NostrEvent, state: PipelineState, input: PipelineInput) -> (res: (
    PipelineState,
    PipelineAction,
))
    requires
        pipeline_accepts(state, input),
    ensures
        pipeline_next(*event, state, input, res.0, res.1),
{
    match (state, input) {
        (PipelineState::Verifying, PipelineInput::Start) => verify_step(event),
        (PipelineState::AwaitingAccount, PipelineInput::AccountLinkLoaded { lookup }) => account_step(event, lookup),
        (PipelineState::AwaitingProcessedCheck { account }, PipelineInput::ProcessedChecked { checked }) => {
            processed_step(event, account, checked)
        },
        (PipelineState::AwaitingBlob { account }, PipelineInput::BlobFetched { fetched }) => match fetched {
            Err(c) => fail(prefixed("failed to fetch blob: ", c.as_str())),
            Ok(_) => (PipelineState::AwaitingUpload { account }, PipelineAction::UploadBlob),
        },
        (PipelineState::AwaitingUpload { account }, PipelineInput::BlobUploaded { uploaded }) => upload_step(
            event,
            account,
            uploaded,
        ),
        (PipelineState::AwaitingWrite { account, rkey }, PipelineInput::RecordWritten { written }) => write_step(
            event,
            account,
            rkey,
            written,
        ),
        (PipelineState::AwaitingSave { at_uri, rkey }, PipelineInput::MappingSaved { saved }) => match saved {
            Err(c) => fail(prefixed("failed to save record mapping: ", c.as_str())),
            Ok(_) => (
                PipelineState::Finished,
                PipelineAction::Finish { result: ProcessResult::Published { at_uri, rkey } },
            ),
        },
        (PipelineState::AwaitingMapping { account, target_id }, PipelineInput::MappingLoaded { lookup }) => mapping_step(
            account,
            target_id,
            lookup,
        ),
        (PipelineState::AwaitingDelete { target_id, at_uri }, PipelineInput::RecordDeleted { deleted }) => match deleted {
            Err(c) => fail(prefixed("failed to delete record from PDS: ", c.as_str())),
            Ok(_) => (
                PipelineState::AwaitingMarkDeleted { at_uri },
                PipelineAction::MarkDeleted { event_id: target_id },
            ),
        },
        (PipelineState::AwaitingMarkDeleted { at_uri }, PipelineInput::MarkedDeleted { marked }) => match marked {
            Err(c) => fail(prefixed("failed to mark record as deleted: ", c.as_str())),
            Ok(_) => (PipelineState::Finished, PipelineAction::Finish { result: ProcessResult::Deleted { at_uri } }),
        },
        _ => (PipelineState::Finished, PipelineAction::Finish { result: ProcessResult::Skipped { reason: String::new() } }),
    }
}


/// What holds of an event wherever it stands: past the signature check it
/// verifies; past the account lookup its account is opted in; video states
/// carry video kinds, deletion states kind 5.
pub open spec fn pipeline_state_wf(e: NostrEvent, s: PipelineState) -> bool {
    match s {
        PipelineState::Verifying => true,
        PipelineState::Finished => true,
        PipelineState::AwaitingAccount => verified(e),
        PipelineState::AwaitingProcessedCheck { account } => verified(e) && account.opted_in && e.kind
            != 5,
        PipelineState::AwaitingBlob { account } => verified(e) && account.opted_in && is_video_kind(
            e.kind,
        ),
        PipelineState::AwaitingUpload { account } => verified(e) && account.opted_in && is_video_kind(
            e.kind,
        ),
        PipelineState::AwaitingWrite { account, rkey } => verified(e) && account.opted_in
            && is_video_kind(e.kind) && rkey@ == rkey_spec(e.tags_view(), e.id@),
        PipelineState::AwaitingSave { .. } => verified(e) && is_video_kind(e.kind),
        PipelineState::AwaitingMapping { account, .. } => verified(e) && account.opted_in && e.kind
            == 5,
        PipelineState::AwaitingDelete { .. } => verified(e) && e.kind == 5,
        PipelineState::AwaitingMarkDeleted { .. } => verified(e) && e.kind == 5,
    }
}

/// Every step keeps the pipeline's invariant, so nothing is looked up or
/// written for an event whose signature does not verify or whose account has
/// not opted in; records are written only for video kinds and deleted only
/// for kind-5 events.
pub proof fn pipeline_step_keeps_invariant(
    e: NostrEvent,
    s: PipelineState,
    i: PipelineInput,
    ns: PipelineState,
    a: PipelineAction,
)
    requires
        pipeline_state_wf(e, s),
        pipeline_next(e, s, i, ns, a),
    ensures
        pipeline_state_wf(e, ns),
        a is PutRecord ==> verified(e) && is_video_kind(e.kind),
        a is DeleteRecord ==> verified(e) && e.kind == 5,
        a is LookUpAccount ==> verified(e),
{
}

/// A deletion removes only a live record owned by the deleting account.
pub proof fn deletion_only_of_own_live_record(
    account: AccountLink,
    target_id: String,
    lookup: Result<Option<RecordMapping>, String>,
    ns: PipelineState,
    a: PipelineAction,
)
    requires
        mapping_next(account, target_id, lookup, ns, a),
        a is DeleteRecord,
    ensures
        lookup matches Ok(Some(m)) && !m.deleted && m.did@ == account.did@ && (a matches PipelineAction::DeleteRecord { did, rkey, .. } && did@ == m.did@ && rkey@ == m.rkey@),
{
}

/// A new video event with no `url` tag fetches the URL of its first `imeta`
/// entry `"url X"`: the next action is `FetchBlob` with that `X`.
pub proof fn imeta_url_is_fetched(
    e: NostrEvent,
    account: AccountLink,
    k: int,
    j: int,
    ns: PipelineState,
    a: PipelineAction,
)
    requires
        is_video_kind(e.kind),
        has_no_url_tag(e.tags_view()),
        first_url_entry_at(e.tags_view(), k, j),
        pipeline_next(
            e,
            PipelineState::AwaitingProcessedCheck { account },
            PipelineInput::ProcessedChecked { checked: Ok(false) },
            ns,
            a,
        ),
    ensures
        a matches PipelineAction::FetchBlob { url } && url@ == e.tags_view()[k][j].skip(4),
        ns matches PipelineState::AwaitingBlob { account: acc } && acc == account,
{
    first_imeta_url_is_video_url(e.tags_view(), k, j);
}

/// An event is reported published only once its mapping is saved, and
/// deleted only once its mapping is marked deleted.
pub proof fn results_follow_their_writes(
    e: NostrEvent,
    s: PipelineState,
    i: PipelineInput,
    ns: PipelineState,
    a: PipelineAction,
)
    requires
        pipeline_next(e, s, i, ns, a),
    ensures
        a matches PipelineAction::Finish { result: ProcessResult::Published { .. } } ==> s is AwaitingSave
            && i matches PipelineInput::MappingSaved { saved: Ok(_) },
        a matches PipelineAction::Finish { result: ProcessResult::Deleted { .. } } ==> s is AwaitingMarkDeleted
            && i matches PipelineInput::MarkedDeleted { marked: Ok(_) },
{
}

} // verus!
