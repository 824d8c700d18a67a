//! The PLC directory: endpoints, the retry and conflict decisions of
//! creating and updating a DID, and moving an account's PDS endpoint.
//!
//! HTTP is the caller's; each function decides on what a call returned.

use vstd::prelude::*;
use crate::appview::strip_trailing_slashes;
use crate::chars::{push_all, str_equal};
use crate::json::json_text_value;
use crate::order::{str_less, str_lt};
use crate::provisioner::{AccountLinkRecord, PlcOperation, PlcService, ProvisioningState};
use crate::xrpc::{parse_xrpc_error, trim_trailing_slashes, xrpc_error_detail};

verus! {

broadcast use vstd::seq_lib::group_seq_properties;

/// The PDS origin of the production deployment.
pub const PRODUCTION_PDS_ORIGIN: &'static str = "https://pds.divine.video";

/// Where new DIDs are posted: the directory root with one trailing `/`.
pub fn plc_create_endpoint(base_url: &str) -> (u: String)
    ensures
        u@ == strip_trailing_slashes(base_url@) + "/"@,
{
    let mut u = trim_trailing_slashes(base_url);
    push_all(&mut u, "/");
    u
}

/// Where updates of a DID are posted: `{root}/{did}`.
pub fn plc_did_endpoint(base_url: &str, did: &str) -> (u: String)
    ensures
        u@ == strip_trailing_slashes(base_url@) + "/"@ + did@,
{
    let mut u = trim_trailing_slashes(base_url);
    push_all(&mut u, "/");
    push_all(&mut u, did);
    u
}

/// What one request to the directory came back with.
pub enum PlcAttempt {
    /// The request was not answered; `retryable` for timeouts, connection and
    /// request errors.
    SendFailed { retryable: bool, error: String },
    /// A success status; for a create, the `did` the body named, if any.
    Succeeded { did: Option<String> },
    /// Another status (`status_text` as the status displays, e.g.
    /// `503 Service Unavailable`), with the body.
    Rejected { status: u16, status_text: String, body: String },
}

/// What to do after an attempt.
pub enum PlcStep {
    RetryAfter { millis: u64 },
    Finish { result: Result<String, String> },
}

/// The decision after attempt `attempt` of `max_attempts` at `op`
/// (`create` or `update`): transport failures and server errors are retried
/// while attempts remain. A create returns the DID the directory names, else
/// the one derived from the operation; a conflict on create means the DID
/// exists, so the derived one is returned. An update returns an empty text.
pub open spec fn plc_step_spec(
    create: bool,
    derived_did: Seq<char>,
    attempt: usize,
    max_attempts: usize,
    outcome: PlcAttempt,
    step: PlcStep,
) -> bool {
    let more = attempt + 1 < max_attempts;
    let op = if create {
        "create"@
    } else {
        "update"@
    };
    match outcome {
        PlcAttempt::SendFailed { retryable, error } => if retryable && more {
            step matches PlcStep::RetryAfter { millis } && millis == 50 * (attempt + 1)
        } else {
            step matches PlcStep::Finish { result: Err(m) } && m@ == "sending PLC directory "@ + op + " request: "@
                + error@
        },
        PlcAttempt::Succeeded { did } => step matches PlcStep::Finish { result: Ok(d) } && d@ == if create {
            match did {
                Some(x) => x@,
                None => derived_did,
            }
        } else {
            Seq::<char>::empty()
        },
        PlcAttempt::Rejected { status, status_text, body } => if create && status == 409 {
            step matches PlcStep::Finish { result: Ok(d) } && d@ == derived_did
        } else if 500 <= status <= 599 && more {
            step matches PlcStep::RetryAfter { millis } && millis == 50 * (attempt + 1)
        } else {
            step matches PlcStep::Finish { result: Err(m) } && m@ == "PLC directory "@ + op + " failed ("@
                + status_text@ + "): "@ + xrpc_error_detail(body@, json_text_value(body@))
        },
    }
}

/// Decide what follows a directory request.
pub fn after_plc_attempt(
    create: bool,
    derived_did: &str,
    attempt: usize,
    max_attempts: usize,
    outcome: PlcAttempt,
) -> (step: PlcStep)
    requires
        attempt < max_attempts,
        attempt + 1 < max_attempts ==> crate::pds_accounts::retry_delay_fits(attempt),
    ensures
        plc_step_spec(create, derived_did@, attempt, max_attempts, outcome, step),
        step is RetryAfter ==> attempt + 1 < max_attempts,
{
    let more = attempt + 1 < max_attempts;
    let op = if create {
        "create"
    } else {
        "update"
    };
    match outcome {
        PlcAttempt::SendFailed { retryable, error } => {
            if retryable && more {
                PlcStep::RetryAfter { millis: crate::pds_accounts::retry_delay(attempt) }
            } else {
                let mut m = "sending PLC directory ".to_string();
                push_all(&mut m, op);
                push_all(&mut m, " request: ");
                push_all(&mut m, error.as_str());
                PlcStep::Finish { result: Err(m) }
            }
        },
        PlcAttempt::Succeeded { did } => {
            if create {
                match did {
                    Some(d) => PlcStep::Finish { result: Ok(d) },
                    None => PlcStep::Finish { result: Ok(derived_did.to_string()) },
                }
            } else {
                PlcStep::Finish { result: Ok(String::new()) }
            }
        },
        PlcAttempt::Rejected { status, status_text, body } => {
            if create && status == 409 {
                PlcStep::Finish { result: Ok(derived_did.to_string()) }
            } else if 500 <= status && status <= 599 && more {
                PlcStep::RetryAfter { millis: crate::pds_accounts::retry_delay(attempt) }
            } else {
                let mut m = "PLC directory ".to_string();
                push_all(&mut m, op);
                push_all(&mut m, " failed (");
                push_all(&mut m, status_text.as_str());
                push_all(&mut m, "): ");
                let detail = parse_xrpc_error(body.as_str());
                push_all(&mut m, detail.as_str());
                PlcStep::Finish { result: Err(m) }
            }
        },
    }
}

/// Service keys in strictly increasing order.
pub open spec fn services_sorted(s: Seq<(String, PlcService)>) -> bool {
    forall|i: int, j: int| 0 <= i < j < s.len() ==> str_lt((#[trigger] s[i]).0@, (#[trigger] s[j]).0@)
}

/// Point the operation's `atproto_pds` service at the production PDS,
/// adding the service (as a personal data server) where it is missing.
pub fn rewrite_pds_endpoint(operation: &mut PlcOperation)
    requires
        services_sorted(old(operation).services@),
    ensures
        services_sorted(final(operation).services@),
        exists|i: int| 0 <= i < final(operation).services@.len() && (#[trigger] final(operation).services@[i]).0@
            == "atproto_pds"@ && final(operation).services@[i].1.endpoint@ == "https://pds.divine.video"@,
        forall|i: int| 0 <= i < old(operation).services@.len() && (#[trigger] old(operation).services@[i]).0@
            != "atproto_pds"@ ==> final(operation).services@.contains(old(operation).services@[i]),
        (exists|i: int| 0 <= i < old(operation).services@.len() && (#[trigger] old(operation).services@[i]).0@
            == "atproto_pds"@) ==> final(operation).services@.len() == old(operation).services@.len(),
        (exists|i: int| 0 <= i < old(operation).services@.len() && (#[trigger] old(operation).services@[i]).0@
            == "atproto_pds"@) ==> exists|k: int|
            #![trigger old(operation).services@[k]]
            0 <= k < old(operation).services@.len() && old(operation).services@[k].0@ == "atproto_pds"@
                && final(operation).services@[k].0 == old(operation).services@[k].0
                && final(operation).services@[k].1.service_type == old(operation).services@[k].1.service_type
                && final(operation).services@[k].1.endpoint@ == "https://pds.divine.video"@ && (forall|j: int|
                0 <= j < old(operation).services@.len() && j != k ==> #[trigger] final(operation).services@[j]
                    == old(operation).services@[j]),
        !(exists|i: int| 0 <= i < old(operation).services@.len() && (#[trigger] old(operation).services@[i]).0@
            == "atproto_pds"@) ==> final(operation).services@.len() == old(operation).services@.len() + 1
            && exists|k: int|
            #![trigger final(operation).services@[k]]
            0 <= k <= old(operation).services@.len() && final(operation).services@[k].0@ == "atproto_pds"@
                && final(operation).services@[k].1.service_type@ == "AtprotoPersonalDataServer"@
                && final(operation).services@[k].1.endpoint@ == "https://pds.divine.video"@ && (forall|j: int|
                0 <= j < k ==> #[trigger] final(operation).services@[j] == old(operation).services@[j]) && (forall|
                j: int,
            |
                k < j < final(operation).services@.len() ==> #[trigger] final(operation).services@[j]
                    == old(operation).services@[j - 1]),
        final(operation).op_type == old(operation).op_type,
        final(operation).rotation_keys == old(operation).rotation_keys,
        final(operation).verification_methods == old(operation).verification_methods,
        final(operation).also_known_as == old(operation).also_known_as,
        final(operation).prev == old(operation).prev,
        final(operation).sig == old(operation).sig,
{
    let mut k: usize = 0;
    while k < operation.services.len() && str_less(operation.services[k].0.as_str(), "atproto_pds")
        invariant
            k <= operation.services@.len(),
            *operation == *old(operation),
            services_sorted(operation.services@),
            forall|i: int| 0 <= i < k ==> str_lt((#[trigger] operation.services@[i]).0@, "atproto_pds"@),
        decreases operation.services.len() - k,
    {
        k += 1;
    }
    let ghost before = operation.services@;
    proof {
        assert forall|i: int| 0 <= i < k implies (#[trigger] before[i]).0@ != "atproto_pds"@ by {
            crate::order::lemma_str_lt_irreflexive("atproto_pds"@);
        }
    }
    if k < operation.services.len() && str_equal(operation.services[k].0.as_str(), "atproto_pds") {
        let mut entry = operation.services.remove(k);
        entry.1.endpoint = PRODUCTION_PDS_ORIGIN.to_string();
        let ghost removed = operation.services@;
        operation.services.insert(k, entry);
        proof {
            assert(operation.services@ =~= before.update(k as int, entry));
            assert(operation.services@[k as int].0@ == "atproto_pds"@);
            assert(before[k as int].0@ == "atproto_pds"@);
            assert(forall|j: int| 0 <= j < before.len() && j != k ==> operation.services@[j] == before[j]);
            assert forall|i: int, j: int| 0 <= i < j < operation.services@.len() implies str_lt(
                (#[trigger] operation.services@[i]).0@,
                (#[trigger] operation.services@[j]).0@,
            ) by {
                assert(str_lt(before[i].0@, before[j].0@));
            }
            assert forall|i: int| 0 <= i < before.len() && (#[trigger] before[i]).0@ != "atproto_pds"@ implies operation.services@.contains(
                before[i],
            ) by {
                assert(i != k);
                assert(operation.services@[i] == before[i]);
            }
        }
    } else {
        proof {
            if k < before.len() {
                assert(!str_lt(before[k as int].0@, "atproto_pds"@));
                crate::order::lemma_str_lt_total(before[k as int].0@, "atproto_pds"@);
            }
            assert forall|i: int| 0 <= i < before.len() implies (#[trigger] before[i]).0@ != "atproto_pds"@ by {
                if i >= k && k < before.len() {
                    if i > k {
                        assert(str_lt(before[k as int].0@, before[i].0@));
                        crate::order::lemma_str_lt_transitive("atproto_pds"@, before[k as int].0@, before[i].0@);
                        crate::order::lemma_str_lt_irreflexive("atproto_pds"@);
                    }
                }
            }
        }
        let entry = (
            "atproto_pds".to_string(),
            PlcService {
                service_type: "AtprotoPersonalDataServer".to_string(),
                endpoint: PRODUCTION_PDS_ORIGIN.to_string(),
            },
        );
        operation.services.insert(k, entry);
        proof {
            assert(operation.services@[k as int] == entry);
            assert(!(exists|i: int| 0 <= i < before.len() && (#[trigger] before[i]).0@ == "atproto_pds"@));
            assert(forall|j: int| 0 <= j < k ==> operation.services@[j] == before[j]);
            assert(forall|j: int| k < j < operation.services@.len() ==> operation.services@[j] == before[j - 1]);
            assert forall|i: int, j: int| 0 <= i < j < operation.services@.len() implies str_lt(
                (#[trigger] operation.services@[i]).0@,
                (#[trigger] operation.services@[j]).0@,
            ) by {
                if j == k {
                    assert(operation.services@[i] == before[i]);
                } else if i == k {
                    assert(operation.services@[j] == before[j - 1]);
                    if j - 1 > k {
                        assert(str_lt(before[k as int].0@, before[j - 1].0@));
                        crate::order::lemma_str_lt_transitive("atproto_pds"@, before[k as int].0@, before[j - 1].0@);
                    }
                } else if i < k && j > k {
                    assert(operation.services@[i] == before[i]);
                    assert(operation.services@[j] == before[j - 1]);
                    assert(str_lt(before[i].0@, "atproto_pds"@));
                    if j - 1 > k {
                        assert(str_lt(before[k as int].0@, before[j - 1].0@));
                        crate::order::lemma_str_lt_transitive("atproto_pds"@, before[k as int].0@, before[j - 1].0@);
                    }
                    crate::order::lemma_str_lt_transitive(before[i].0@, "atproto_pds"@, before[j - 1].0@);
                } else if i > k {
                    assert(operation.services@[i] == before[i - 1]);
                    assert(operation.services@[j] == before[j - 1]);
                } else {
                    assert(operation.services@[i] == before[i]);
                    assert(operation.services@[j] == before[j]);
                }
            }
            assert forall|i: int| 0 <= i < before.len() && (#[trigger] before[i]).0@ != "atproto_pds"@ implies operation.services@.contains(
                before[i],
            ) by {
                if i < k {
                    assert(operation.services@[i] == before[i]);
                } else {
                    assert(operation.services@[i + 1] == before[i]);
                }
            }
        }
    }
}

/// Check that an account can be moved to the production PDS: it must be
/// ready and have a DID, which is returned.
pub fn backfill_target_did(account: &AccountLinkRecord) -> (res: Result<String, String>)
    ensures
        account.provisioning_state != ProvisioningState::Ready ==> (res matches Err(m) && m@
            == "backfill only applies to ready accounts"@),
        account.provisioning_state == ProvisioningState::Ready && account.did is None ==> (res matches Err(m)
            && m@ == "ready account is missing a DID"@),
        account.provisioning_state == ProvisioningState::Ready ==> (account.did matches Some(d) ==> (res matches Ok(
            x,
        ) && x@ == d@)),
{
    match account.provisioning_state {
        ProvisioningState::Ready => {},
        _ => return Err("backfill only applies to ready accounts".to_string()),
    }
    match &account.did {
        Some(d) => Ok(d.clone()),
        None => Err("ready account is missing a DID".to_string()),
    }
}

} // verus!
