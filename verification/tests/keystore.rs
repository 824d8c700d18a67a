use divine_sky::keystore::{provisioning_aad, DbProvisioningKeyStore, GeneratedKeyStore, ProvisioningKeyRow};
use secp256k1::{PublicKey, Secp256k1, SecretKey};

#[test]
fn generated_keys_load_back_from_their_sealed_rows() {
    let store = DbProvisioningKeyStore::new("postgres://db".into(), [7u8; 32]);
    assert_eq!(store.database_url(), "postgres://db");
    let (row, pair) = store.generate_keypair("signing-key").unwrap();
    assert_eq!(row.key_purpose, "signing-key");
    assert_eq!(row.key_ref, format!("signing-key:{}", row.public_key_hex));
    assert_eq!(row.public_key_hex, hex::encode(&pair.public_key));
    assert_eq!(row.encrypted_secret.len(), 61);
    assert_eq!(row.encrypted_secret[0], 1);
    let secp = Secp256k1::new();
    let secret = SecretKey::from_slice(&pair.secret_key).unwrap();
    assert_eq!(PublicKey::from_secret_key(&secp, &secret).serialize().to_vec(), pair.public_key);
    assert_eq!(store.keypair_from_row(&row), Ok(pair));
}

#[test]
fn sealed_secrets_only_open_for_their_key_reference() {
    let store = DbProvisioningKeyStore::new("db".into(), [9u8; 32]);
    let (row, _pair) = store.generate_keypair("plc-rotation-key").unwrap();
    let moved = ProvisioningKeyRow { key_purpose: "signing-key".into(), ..row.clone() };
    assert_eq!(store.keypair_from_row(&moved).unwrap_err(), "decrypting provisioning secret");
    let other_store = DbProvisioningKeyStore::new("db".into(), [8u8; 32]);
    assert_eq!(other_store.keypair_from_row(&row).unwrap_err(), "decrypting provisioning secret");
    let mut tampered = row.clone();
    tampered.encrypted_secret[20] ^= 1;
    assert_eq!(store.keypair_from_row(&tampered).unwrap_err(), "decrypting provisioning secret");
}

#[test]
fn malformed_envelopes_are_refused() {
    let store = DbProvisioningKeyStore::new("db".into(), [9u8; 32]);
    let (row, _pair) = store.generate_keypair("signing-key").unwrap();
    let short = ProvisioningKeyRow { encrypted_secret: vec![1; 13], ..row.clone() };
    assert_eq!(store.keypair_from_row(&short).unwrap_err(), "encrypted provisioning secret is truncated");
    let mut v2 = row.clone();
    v2.encrypted_secret[0] = 2;
    assert_eq!(store.keypair_from_row(&v2).unwrap_err(), "unsupported provisioning secret envelope version: 2");
    let wrong_public = ProvisioningKeyRow { public_key_hex: "00".repeat(33), ..row.clone() };
    assert_eq!(
        store.keypair_from_row(&wrong_public).unwrap_err(),
        "stored provisioning key public key does not match decrypted secret"
    );
}

#[test]
fn encrypted_secret_round_trips_through_decrypt() {
    let store = DbProvisioningKeyStore::new("db".into(), [3u8; 32]);
    let secret = [0x11u8; 32];
    let envelope = store.encrypt_secret("ref", "purpose", &secret).unwrap();
    assert_eq!(store.decrypt_secret("ref", "purpose", &envelope), Ok(secret.to_vec()));
    assert_eq!(store.decrypt_secret("ref", "other", &envelope), Err("decrypting provisioning secret".into()));
    let zero = store.encrypt_secret("ref", "purpose", &[0u8; 32]).unwrap();
    assert_eq!(store.decrypt_secret("ref", "purpose", &zero), Err("stored provisioning secret is not a valid key".into()));
    assert_eq!(provisioning_aad("signing-key:02ab", "signing-key"), b"signing-key:02ab:signing-key".to_vec());
}

#[test]
fn generated_key_store_references_by_public_key() {
    let (key_ref, pair) = GeneratedKeyStore.generate_keypair("signing-key");
    assert_eq!(key_ref, format!("signing-key:{}", hex::encode(&pair.public_key)));
    assert_eq!(pair.secret_key.len(), 32);
    assert_eq!(pair.public_key.len(), 33);
}
