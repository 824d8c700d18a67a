//! Nostr kind-5 deletions.
//!
//! A deletion names the event it deletes in its first `e` tag. The bridged
//! record is looked up by that id, deleted from the PDS, and its mapping is
//! marked `deleted`. The lookups and writes are the caller's: the steps here
//! say, from the last outcome, what to do next.

use vstd::prelude::*;
use crate::chars::{push_all, str_equal};
use crate::event::{get_deleted_event_id, tag_value, NostrEvent};

verus! {

/// A mapping entry linking a Nostr event to an AT Protocol record.
#[derive(Debug, Clone, PartialEq, Eq)]
pub struct RecordMapping {
    pub nostr_event_id: String,
    pub at_uri: String,
    pub did: String,
    pub collection: String,
    pub rkey: String,
    pub status: String,
}

/// A deletion asked for by an account that does not own the record.
#[derive(Debug, Clone, Copy, PartialEq, Eq, Structural)]
pub enum DeleteRequestError {
    NotOwner,
}

impl DeleteRequestError {
    pub fn message(&self) -> (s: String)
        ensures
            s@ == "deleting account does not own the target record"@,
    {
        "deleting account does not own the target record".to_string()
    }
}

/// A deletion may only remove a record owned by the account that asks.
pub fn validate_delete_request(requester_did: &str, owner_did: &str) -> (res: Result<
    (),
    DeleteRequestError,
>)
    ensures
        res is Ok <==> requester_did@ == owner_did@,
{
    if str_equal(requester_did, owner_did) {
        Ok(())
    } else {
        Err(DeleteRequestError::NotOwner)
    }
}

/// Why a deletion failed; `cause` is the text of the failed outside call.
#[derive(Debug, Clone, PartialEq, Eq)]
pub enum DeletionError {
    NoTarget,
    LookupFailed { cause: String },
    NoMapping,
    DeleteFailed { cause: String },
    StatusUpdateFailed { cause: String },
}

/// The text of each deletion error, its cause after a colon where there is one.
pub open spec fn deletion_error_text(e: DeletionError) -> Seq<char> {
    match e {
        DeletionError::NoTarget => "deletion event has no 'e' tag referencing an event"@,
        DeletionError::LookupFailed { cause } => "failed to look up record mapping: "@ + cause@,
        DeletionError::NoMapping => "no record mapping found for deleted event"@,
        DeletionError::DeleteFailed { cause } => "failed to delete record from PDS: "@ + cause@,
        DeletionError::StatusUpdateFailed { cause } => "failed to update mapping status to deleted: "@ + cause@,
    }
}

impl DeletionError {
    /// The error's text, its cause after a colon where there is one.
    pub fn message(&self) -> (s: String)
        ensures
            s@ == deletion_error_text(*self),
    {
        match self {
            DeletionError::NoTarget => "deletion event has no 'e' tag referencing an event".to_string(),
            DeletionError::LookupFailed { cause } => {
                let mut s = "failed to look up record mapping: ".to_string();
                push_all(&mut s, cause.as_str());
                s
            },
            DeletionError::NoMapping => "no record mapping found for deleted event".to_string(),
            DeletionError::DeleteFailed { cause } => {
                let mut s = "failed to delete record from PDS: ".to_string();
                push_all(&mut s, cause.as_str());
                s
            },
            DeletionError::StatusUpdateFailed { cause } => {
                let mut s = "failed to update mapping status to deleted: ".to_string();
                push_all(&mut s, cause.as_str());
                s
            },
        }
    }
}

/// Where a deletion stands.
pub enum DeletionState {
    Start,
    AwaitingMapping { target_id: String },
    AwaitingDelete { target_id: String },
    AwaitingStatusUpdate,
    Done,
}

/// The outcome of the last action, as the caller observed it.
pub enum DeletionInput {
    Begin,
    MappingFound { found: Result<Option<RecordMapping>, String> },
    RecordDeleted { result: Result<(), String> },
    StatusUpdated { result: Result<(), String> },
}

/// What the caller does next.
pub enum DeletionAction {
    LookUpMapping { event_id: String },
    DeleteRecord { did: String, collection: String, rkey: String },
    UpdateStatus { event_id: String, status: String },
    Finish { result: Result<(), DeletionError> },
}

/// Which inputs each state waits for.
pub open spec fn deletion_accepts(state: DeletionState, input: DeletionInput) -> bool {
    match (state, input) {
        (DeletionState::Start, DeletionInput::Begin) => true,
        (DeletionState::AwaitingMapping { .. }, DeletionInput::MappingFound { .. }) => true,
        (DeletionState::AwaitingDelete { .. }, DeletionInput::RecordDeleted { .. }) => true,
        (DeletionState::AwaitingStatusUpdate, DeletionInput::StatusUpdated { .. }) => true,
        _ => false,
    }
}

/// A finished deletion whose result satisfies `p`.
pub open spec fn finished_with(
    ns: DeletionState,
    a: DeletionAction,
    p: spec_fn(Result<(), DeletionError>) -> bool,
) -> bool {
    &&& ns is Done
    &&& a matches DeletionAction::Finish { result } && p(result)
}

/// One step of a deletion.
pub open spec fn deletion_next(
    e: NostrEvent,
    state: DeletionState,
    input: DeletionInput,
    ns: DeletionState,
    a: DeletionAction,
) -> bool {
    match (state, input) {
        (DeletionState::Start, DeletionInput::Begin) => match tag_value(e.tags_view(), "e"@) {
            None => finished_with(ns, a, |r: Result<(), DeletionError>| r matches Err(DeletionError::NoTarget)),
            Some(t) => {
                &&& ns matches DeletionState::AwaitingMapping { target_id } && target_id@ == t
                &&& a matches DeletionAction::LookUpMapping { event_id } && event_id@ == t
            },
        },
        (DeletionState::AwaitingMapping { target_id }, DeletionInput::MappingFound { found }) => match found {
            Err(c) => finished_with(ns, a, |r: Result<(), DeletionError>| r matches Err(DeletionError::LookupFailed { cause }) && cause@ == c@),
            Ok(None) => finished_with(ns, a, |r: Result<(), DeletionError>| r matches Err(DeletionError::NoMapping)),
            Ok(Some(m)) => if m.status@ == "deleted"@ {
                finished_with(ns, a, |r: Result<(), DeletionError>| r is Ok)
            } else {
                &&& ns matches DeletionState::AwaitingDelete { target_id: t } && t@ == target_id@
                &&& a matches DeletionAction::DeleteRecord { did, collection, rkey }
                    && did@ == m.did@ && collection@ == m.collection@ && rkey@ == m.rkey@
            },
        },
        (DeletionState::AwaitingDelete { target_id }, DeletionInput::RecordDeleted { result }) => match result {
            Err(c) => finished_with(ns, a, |r: Result<(), DeletionError>| r matches Err(DeletionError::DeleteFailed { cause }) && cause@ == c@),
            Ok(_) => {
                &&& ns is AwaitingStatusUpdate
                &&& a matches DeletionAction::UpdateStatus { event_id, status }
                    && event_id@ == target_id@ && status@ == "deleted"@
            },
        },
        (DeletionState::AwaitingStatusUpdate, DeletionInput::StatusUpdated { result }) => match result {
            Err(c) => finished_with(ns, a, |r: Result<(), DeletionError>| r matches Err(DeletionError::StatusUpdateFailed { cause }) && cause@ == c@),
            Ok(_) => finished_with(ns, a, |r: Result<(), DeletionError>| r is Ok),
        },
        _ => false,
    }
}

/// Decide the next step of handling a kind-5 deletion event.
pub fn deletion_step(event: &NostrEvent, state: DeletionState, input: DeletionInput) -> (res: (
    DeletionState,
    DeletionAction,
))
    requires
        deletion_accepts(state, input),
    ensures
        deletion_next(*event, state, input, res.0, res.1),
{
    match (state, input) {
        (DeletionState::Start, DeletionInput::Begin) => match get_deleted_event_id(event) {
            None => (DeletionState::Done, DeletionAction::Finish { result: Err(DeletionError::NoTarget) }),
            Some(t) => {
                let event_id = t.clone();
                (DeletionState::AwaitingMapping { target_id: t }, DeletionAction::LookUpMapping { event_id })
            },
        },
        (DeletionState::AwaitingMapping { target_id }, DeletionInput::MappingFound { found }) => match found {
            Err(cause) => (DeletionState::Done, DeletionAction::Finish { result: Err(DeletionError::LookupFailed { cause }) }),
            Ok(None) => (DeletionState::Done, DeletionAction::Finish { result: Err(DeletionError::NoMapping) }),
            Ok(Some(m)) => {
                if str_equal(m.status.as_str(), "deleted") {
                    (DeletionState::Done, DeletionAction::Finish { result: Ok(()) })
                } else {
                    (
                        DeletionState::AwaitingDelete { target_id },
                        DeletionAction::DeleteRecord { did: m.did, collection: m.collection, rkey: m.rkey },
                    )
                }
            },
        },
        (DeletionState::AwaitingDelete { target_id }, DeletionInput::RecordDeleted { result }) => match result {
            Err(cause) => (DeletionState::Done, DeletionAction::Finish { result: Err(DeletionError::DeleteFailed { cause }) }),
            Ok(_) => (
                DeletionState::AwaitingStatusUpdate,
                DeletionAction::UpdateStatus { event_id: target_id, status: "deleted".to_string() },
            ),
        },
        (DeletionState::AwaitingStatusUpdate, DeletionInput::StatusUpdated { result }) => match result {
            Err(cause) => (DeletionState::Done, DeletionAction::Finish { result: Err(DeletionError::StatusUpdateFailed { cause }) }),
            Ok(_) => (DeletionState::Done, DeletionAction::Finish { result: Ok(()) }),
        },
        _ => (DeletionState::Done, DeletionAction::Finish { result: Ok(()) }),
    }
}

/// A deletion removes exactly the record its mapping names: starting from a
/// kind-5 event, the mapping is looked up by the event's first `e` tag, and
/// once a live mapping is found the record deleted is the mapping's own
/// (its repo, collection and record key), while the deletion goes on to
/// mark the target event's mapping.
pub proof fn deletion_removes_the_mapped_record(
    e: NostrEvent,
    s1: DeletionState,
    a1: DeletionAction,
    m: RecordMapping,
    s2: DeletionState,
    a2: DeletionAction,
)
    requires
        deletion_next(e, DeletionState::Start, DeletionInput::Begin, s1, a1),
        m.status@ != "deleted"@,
        deletion_next(e, s1, DeletionInput::MappingFound { found: Ok(Some(m)) }, s2, a2),
    ensures
        a1 matches DeletionAction::LookUpMapping { event_id } && tag_value(e.tags_view(), "e"@) == Some(
            event_id@,
        ),
        a2 matches DeletionAction::DeleteRecord { did, collection, rkey } && did@ == m.did@
            && collection@ == m.collection@ && rkey@ == m.rkey@,
        s2 matches DeletionState::AwaitingDelete { target_id } && tag_value(e.tags_view(), "e"@) == Some(
            target_id@,
        ),
{
}

/// A mapping already marked `deleted` is never deleted again: looking it up
/// finishes the deletion with no PDS write.
pub proof fn deleted_mapping_is_not_deleted_again(
    e: NostrEvent,
    target_id: String,
    m: RecordMapping,
    ns: DeletionState,
    a: DeletionAction,
)
    requires
        m.status@ == "deleted"@,
        deletion_next(
            e,
            DeletionState::AwaitingMapping { target_id },
            DeletionInput::MappingFound { found: Ok(Some(m)) },
            ns,
            a,
        ),
    ensures
        !(a is DeleteRecord),
        a matches DeletionAction::Finish { result } && result is Ok,
{
}

} // verus!
