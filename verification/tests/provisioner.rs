use divine_sky::provisioner::{
    build_plc_operation, derive_did_plc, map_state, normalise_handle, provision_step, pubkey_to_did_key,
    sign_plc_operation, validate_handle, AccountLinkRecord, GeneratedKey, ProvisionAction, ProvisionError,
    ProvisionInput, ProvisionResult, ProvisionState, ProvisioningState,
};
use secp256k1::{PublicKey, Secp256k1, SecretKey};
use sha2::{Digest, Sha256};

fn public_key_bytes(secret: [u8; 32]) -> Vec<u8> {
    let secp = Secp256k1::new();
    let secret = SecretKey::from_slice(&secret).unwrap();
    PublicKey::from_secret_key(&secp, &secret).serialize().to_vec()
}

#[test]
fn pubkey_to_did_key_format() {
    let public = public_key_bytes([0x01; 32]);
    let did_key = pubkey_to_did_key(&public);
    assert!(did_key.starts_with("did:key:z"));
    assert_eq!(did_key, pubkey_to_did_key(&public));
    let mut prefixed = vec![0xe7, 0x01];
    prefixed.extend_from_slice(&public);
    assert_eq!(did_key, format!("did:key:z{}", bs58::encode(prefixed).into_string()));
}

#[test]
fn did_plc_is_base32_of_the_truncated_digest() {
    let cbor = b"example unsigned operation";
    let did = derive_did_plc(cbor);
    let digest = Sha256::digest(cbor);
    let expected = data_encoding::BASE32_NOPAD.encode(&digest[..15]).to_ascii_lowercase();
    assert_eq!(did, format!("did:plc:{expected}"));
    assert_eq!(did.len(), 32);
}

#[test]
fn plc_operations_are_signed_with_the_rotation_key() {
    let cbor = b"op";
    let sig = sign_plc_operation(cbor, &[0x02; 32]).unwrap();
    let secp = Secp256k1::new();
    let key = SecretKey::from_slice(&[0x02; 32]).unwrap();
    let msg = secp256k1::Message::from_digest_slice(&Sha256::digest(cbor)).unwrap();
    let expected = data_encoding::BASE64URL_NOPAD.encode(&secp.sign_ecdsa(&msg, &key).serialize_compact());
    assert_eq!(sig, expected);
    assert_eq!(sign_plc_operation(cbor, &[0x00; 32]), None);
    assert_eq!(sign_plc_operation(cbor, &[0x02; 31]), None);
}

#[test]
fn provisioning_states_round_trip_through_their_names() {
    for s in [ProvisioningState::Pending, ProvisioningState::Ready, ProvisioningState::Failed, ProvisioningState::Disabled] {
        assert_eq!(map_state(s.as_str()).ok(), Some(s));
    }
    let err = map_state("archived").err().unwrap();
    assert_eq!(err.message(), "unknown provisioning_state: archived");
}

#[test]
fn handles_are_normalised_and_checked_against_the_domain() {
    assert_eq!(normalise_handle("  Alice.DIVINE.video "), "alice.divine.video");
    assert_eq!(validate_handle("alice.divine.video", " .divine.video"), Ok(()));
    assert_eq!(validate_handle("alice.example.com", "divine.video"), Err("handle must end with .divine.video".into()));
    assert_eq!(validate_handle("divine.video", "divine.video"), Err("handle must end with .divine.video".into()));
    assert_eq!(validate_handle(".divine.video", "divine.video"), Ok(()));
}

#[test]
fn genesis_operation_names_keys_handle_and_pds() {
    let op = build_plc_operation("alice.divine.video", "did:key:zSign".into(), "did:key:zRot".into(), "https://pds.divine.video");
    assert_eq!(op.op_type, "plc_operation");
    assert_eq!(op.rotation_keys, vec!["did:key:zRot".to_string()]);
    assert_eq!(op.verification_methods, vec![("atproto".to_string(), "did:key:zSign".to_string())]);
    assert_eq!(op.also_known_as, vec!["at://alice.divine.video".to_string()]);
    assert_eq!(op.services[0].0, "atproto_pds");
    assert_eq!(op.services[0].1.service_type, "AtprotoPersonalDataServer");
    assert_eq!(op.services[0].1.endpoint, "https://pds.divine.video");
    assert!(op.prev.is_none());
    assert!(op.sig.is_empty());
}

/// The link store, key generator, PLC directory and PDS as a test sees them.
#[derive(Default)]
struct World {
    links: Vec<AccountLinkRecord>,
    generated: Vec<String>,
    plc_calls: usize,
    pds_calls: usize,
    pds_fails: bool,
}

fn record(pubkey: &str, handle: &str, state: ProvisioningState, did: Option<&str>) -> AccountLinkRecord {
    AccountLinkRecord {
        nostr_pubkey: pubkey.into(),
        did: did.map(|d| d.to_string()),
        handle: handle.into(),
        crosspost_enabled: false,
        signing_key_id: "signing-key-1".into(),
        plc_rotation_key_ref: "plc-rotation-key-2".into(),
        provisioning_state: state,
        provisioning_error: None,
        disabled_at: None,
        created_at: 0,
        updated_at: 0,
    }
}

fn provision(world: &mut World, pubkey: &str, handle: &str) -> Result<ProvisionResult, ProvisionError> {
    let mut state = ProvisionState::Start;
    let mut input = ProvisionInput::Begin { handle: handle.to_string() };
    loop {
        let (next, action) = provision_step(pubkey, "divine.video", "https://pds.divine.video", state, input);
        state = next;
        input = match action {
            ProvisionAction::Finish { result } => return result,
            ProvisionAction::LookUpLinkByPubkey { pubkey } => ProvisionInput::LinkLoaded {
                found: Ok(world.links.iter().find(|l| l.nostr_pubkey == pubkey).map(copy_record)),
            },
            ProvisionAction::LookUpLinkByHandle { handle } => ProvisionInput::LinkLoaded {
                found: Ok(world.links.iter().find(|l| l.handle == handle).map(copy_record)),
            },
            ProvisionAction::GenerateKey { purpose } => {
                world.generated.push(purpose.clone());
                let n = world.generated.len() as u8;
                ProvisionInput::KeyGenerated {
                    generated: Ok(GeneratedKey { key_id: format!("{purpose}-{n}"), public_key: public_key_bytes([n; 32]) }),
                }
            }
            ProvisionAction::SavePendingLink { pending } => {
                let mut r = record(&pending.nostr_pubkey, &pending.handle, ProvisioningState::Pending, None);
                r.signing_key_id = pending.signing_key_id;
                r.plc_rotation_key_ref = pending.plc_rotation_key_ref;
                world.links.push(r);
                ProvisionInput::PendingSaved { saved: Ok(()) }
            }
            ProvisionAction::EncodeOperation { operation } => {
                assert!(operation.sig.is_empty());
                ProvisionInput::OperationEncoded { unsigned_cbor: b"cbor".to_vec(), rotation_secret: vec![0x07; 32] }
            }
            ProvisionAction::CreateDid { operation } => {
                assert!(!operation.sig.is_empty());
                world.plc_calls += 1;
                let link = world.links.iter_mut().find(|l| l.nostr_pubkey == pubkey).unwrap();
                link.did = Some("did:plc:testaccount".into());
                ProvisionInput::DidCreated { created: Ok("did:plc:testaccount".into()) }
            }
            ProvisionAction::CreateAccount { .. } => {
                world.pds_calls += 1;
                let created = if world.pds_fails { Err("PDS returned 500".to_string()) } else { Ok(()) };
                ProvisionInput::AccountCreated { created }
            }
            ProvisionAction::MarkLinkFailed { error, .. } => {
                let link = world.links.iter_mut().find(|l| l.nostr_pubkey == pubkey).unwrap();
                link.provisioning_state = ProvisioningState::Failed;
                link.provisioning_error = Some(error);
                ProvisionInput::FailureRecorded { recorded: Ok(()) }
            }
            ProvisionAction::MarkLinkReady { did } => {
                let link = world.links.iter_mut().find(|l| l.nostr_pubkey == pubkey).unwrap();
                link.provisioning_state = ProvisioningState::Ready;
                link.did = Some(did);
                ProvisionInput::ReadyMarked { marked: Ok(copy_record(link)) }
            }
        };
    }
}

fn copy_record(r: &AccountLinkRecord) -> AccountLinkRecord {
    AccountLinkRecord {
        nostr_pubkey: r.nostr_pubkey.clone(),
        did: r.did.clone(),
        handle: r.handle.clone(),
        crosspost_enabled: r.crosspost_enabled,
        signing_key_id: r.signing_key_id.clone(),
        plc_rotation_key_ref: r.plc_rotation_key_ref.clone(),
        provisioning_state: r.provisioning_state,
        provisioning_error: r.provisioning_error.clone(),
        disabled_at: r.disabled_at,
        created_at: r.created_at,
        updated_at: r.updated_at,
    }
}

#[test]
fn successful_provisioning_flow_uses_distinct_keys() {
    let mut world = World::default();
    let result = provision(&mut world, "npub_abc123", "alice.divine.video").expect("provisioning should succeed");
    let stored = world.links.iter().find(|l| l.nostr_pubkey == "npub_abc123").unwrap();
    assert_eq!(stored.provisioning_state, ProvisioningState::Ready);
    assert_eq!(stored.did.as_deref(), Some("did:plc:testaccount"));
    assert_ne!(stored.signing_key_id, stored.plc_rotation_key_ref);
    assert_eq!(world.generated, vec!["signing-key".to_string(), "plc-rotation-key".to_string()]);
    assert_eq!(world.plc_calls, 1);
    assert_eq!(world.pds_calls, 1);
    assert_eq!(result.signing_key_id, stored.signing_key_id);
    assert_eq!(result.handle, "alice.divine.video");
}

#[test]
fn duplicate_handle_returns_error() {
    let mut world = World::default();
    world.links.push(record("npub_taken", "alice.divine.video", ProvisioningState::Failed, Some("did:plc:retryme")));
    let err = provision(&mut world, "npub_other", "alice.divine.video").expect_err("duplicate handle should fail");
    assert!(err.message().contains("handle already taken"));
    assert!(world.generated.is_empty());
    assert_eq!((world.plc_calls, world.pds_calls), (0, 0));
}

#[test]
fn pds_failure_marks_link_failed() {
    let mut world = World { pds_fails: true, ..Default::default() };
    let err = provision(&mut world, "npub_fail", "carol.divine.video").expect_err("PDS failure should bubble up");
    let stored = world.links.iter().find(|l| l.nostr_pubkey == "npub_fail").unwrap();
    assert_eq!(stored.provisioning_state, ProvisioningState::Failed);
    assert_eq!(stored.did.as_deref(), Some("did:plc:testaccount"));
    assert!(stored.provisioning_error.as_deref().unwrap_or_default().contains("PDS"));
    assert_eq!((world.plc_calls, world.pds_calls), (1, 1));
    assert!(err.message().contains("creating account on PDS"));
    assert_eq!(err.cause.as_deref(), Some("PDS returned 500"));
}

#[test]
fn retry_reuses_existing_failed_link() {
    let mut world = World::default();
    world.links.push(record("npub_retry", "dana.divine.video", ProvisioningState::Failed, Some("did:plc:retryme")));
    let result = provision(&mut world, "npub_retry", "dana.divine.video").expect("retry should recover");
    let stored = world.links.iter().find(|l| l.nostr_pubkey == "npub_retry").unwrap();
    assert_eq!(stored.provisioning_state, ProvisioningState::Ready);
    assert_eq!(stored.did.as_deref(), Some("did:plc:retryme"));
    assert!(world.generated.is_empty());
    assert_eq!((world.plc_calls, world.pds_calls), (0, 1));
    assert_eq!(result.did, "did:plc:retryme");
}

#[test]
fn disabled_and_mismatched_links_are_refused() {
    let mut world = World::default();
    world.links.push(record("npub_d", "erin.divine.video", ProvisioningState::Disabled, Some("did:plc:d")));
    assert_eq!(provision(&mut world, "npub_d", "erin.divine.video").unwrap_err().message(), "account link is disabled");
    assert_eq!(
        provision(&mut world, "npub_d", "other.divine.video").unwrap_err().message(),
        "existing link is bound to a different handle"
    );
    let err = provision(&mut world, "npub_x", "bad.example.com").unwrap_err();
    assert_eq!(err.message(), "handle must end with .divine.video");
    assert!(world.generated.is_empty());
}

#[test]
fn ready_link_is_returned_as_it_stands() {
    let mut world = World::default();
    world.links.push(record("npub_r", "fay.divine.video", ProvisioningState::Ready, Some("did:plc:ready")));
    let r = provision(&mut world, "npub_r", "  FAY.divine.video").unwrap();
    assert_eq!((r.did.as_str(), r.handle.as_str(), r.signing_key_id.as_str()), ("did:plc:ready", "fay.divine.video", "signing-key-1"));
    assert_eq!(world.pds_calls, 0);
}
