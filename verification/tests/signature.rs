use divine_sky::event::NostrEvent;
use divine_sky::signature::{verify_nostr_event, SignatureError};
use secp256k1::rand::rngs::OsRng;
use secp256k1::{Keypair, Message, Secp256k1};
use sha2::{Digest, Sha256};

fn canonical_id(pubkey: &str, created_at: i64, kind: u64, tags: &Vec<Vec<String>>, content: &str) -> [u8; 32] {
    let canonical = serde_json::to_string(&(0u8, pubkey, created_at, kind, tags, content)).unwrap();
    let mut hasher = Sha256::new();
    hasher.update(canonical.as_bytes());
    hasher.finalize().into()
}

fn make_signed_event(kind: u64, content: &str, tags: Vec<Vec<String>>) -> (NostrEvent, Keypair) {
    let secp = Secp256k1::new();
    let keypair = Keypair::new(&secp, &mut OsRng);
    let (xonly, _parity) = keypair.x_only_public_key();
    let pubkey_hex = hex::encode(xonly.serialize());
    let created_at: i64 = 1_700_000_000;
    let id_bytes = canonical_id(&pubkey_hex, created_at, kind, &tags, content);
    let msg = Message::from_digest(id_bytes);
    let sig = secp.sign_schnorr(&msg, &keypair);
    let event = NostrEvent {
        id: hex::encode(id_bytes),
        pubkey: pubkey_hex,
        created_at,
        kind,
        tags,
        content: content.to_string(),
        sig: hex::encode(sig.serialize()),
    };
    (event, keypair)
}

#[test]
fn test_valid_event_verifies() {
    let (event, _kp) = make_signed_event(1, "hello world", vec![]);
    let result = verify_nostr_event(&event).ok().expect("should not error");
    assert!(result, "valid event should verify");
}

#[test]
fn test_invalid_signature_fails() {
    let (mut event, _kp) = make_signed_event(1, "hello world", vec![]);
    let mut sig_bytes = hex::decode(&event.sig).unwrap();
    sig_bytes[0] ^= 0xff;
    event.sig = hex::encode(&sig_bytes);
    let result = verify_nostr_event(&event);
    if let Ok(valid) = result {
        assert!(!valid, "corrupted sig should not verify");
    }
}

#[test]
fn test_mismatched_pubkey_fails() {
    let (mut event, _kp) = make_signed_event(1, "hello world", vec![]);
    let secp = Secp256k1::new();
    let other_kp = Keypair::new(&secp, &mut OsRng);
    let (other_xonly, _) = other_kp.x_only_public_key();
    event.pubkey = hex::encode(other_xonly.serialize());
    let result = verify_nostr_event(&event);
    if let Ok(valid) = result {
        assert!(!valid, "wrong pubkey should not verify");
    }
}

#[test]
fn test_tampered_content_fails() {
    let (mut event, _kp) = make_signed_event(1, "hello world", vec![]);
    event.content = "tampered content".to_string();
    let result = verify_nostr_event(&event);
    if let Ok(valid) = result {
        assert!(!valid, "tampered content should not verify");
    }
}

#[test]
fn test_event_with_tags() {
    let tags = vec![
        vec!["e".to_string(), "abc123".to_string()],
        vec!["p".to_string(), "def456".to_string()],
    ];
    let (event, _kp) = make_signed_event(1, "tagged event", tags);
    let result = verify_nostr_event(&event).ok().expect("should not error");
    assert!(result, "event with tags should verify");
}

#[test]
fn malformed_key_and_signature_texts_are_errors() {
    let (event, _kp) = make_signed_event(1, "hello", vec![]);
    // A pubkey that is not hex, with an id recomputed to match it.
    let mut bad = event.clone();
    bad.pubkey = "zz".to_string();
    bad.id = hex::encode(canonical_id(&bad.pubkey, bad.created_at, bad.kind, &bad.tags, &bad.content));
    assert!(matches!(verify_nostr_event(&bad), Err(SignatureError::PubkeyHex)));
    // Hex, but not 32 bytes.
    bad.pubkey = "abcd".to_string();
    bad.id = hex::encode(canonical_id(&bad.pubkey, bad.created_at, bad.kind, &bad.tags, &bad.content));
    assert!(matches!(verify_nostr_event(&bad), Err(SignatureError::Pubkey)));
    // Valid key, signature not hex.
    let mut bad = event.clone();
    bad.sig = "not-hex".to_string();
    assert!(matches!(verify_nostr_event(&bad), Err(SignatureError::SignatureHex)));
    // Valid key, signature of the wrong length.
    bad.sig = "abcd".to_string();
    assert!(matches!(verify_nostr_event(&bad), Err(SignatureError::Signature)));
    assert_eq!(SignatureError::Signature.message(), "invalid signature");
}

#[test]
fn id_mismatch_is_false_not_an_error() {
    let (mut event, _kp) = make_signed_event(1, "hello", vec![]);
    event.id = "00".repeat(32);
    event.pubkey = "zz".to_string();
    assert!(matches!(verify_nostr_event(&event), Ok(false)));
}
