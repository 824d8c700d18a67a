//! Provisioning keys: secp256k1 keypairs whose secrets are stored sealed
//! with AES-256-GCM.
//!
//! A sealed secret is an envelope: a version byte (1), the 12-byte nonce,
//! then the ciphertext with its tag. The associated data binds the envelope
//! to its key reference and purpose (`{key_ref}:{purpose}`). The database rows
//! are read and written by the caller.

use vstd::prelude::*;
use aes_gcm::aead::Aead;
use aes_gcm::KeyInit;
use crate::chars::{decimal_text, push_all, str_equal, u64_to_decimal};
use crate::provisioner::secret_key_valid;
use crate::signature::{hex_encode, hex_lower};

verus! {

broadcast use vstd::seq_lib::group_seq_properties;

/// The envelope format of a sealed secret.
pub const PROVISIONING_KEY_ENVELOPE_VERSION: u8 = 1;
/// Bytes of an AES-GCM nonce.
pub const AES_GCM_NONCE_LEN: usize = 12;

/// A secp256k1 keypair: the 32-byte secret and the 33-byte compressed public key.
#[derive(Debug, Clone, PartialEq, Eq)]
pub struct KeyPair {
    pub secret_key: Vec<u8>,
    pub public_key: Vec<u8>,
}

/// A stored provisioning key.
#[derive(Debug, Clone, PartialEq, Eq)]
pub struct ProvisioningKeyRow {
    pub key_ref: String,
    pub key_purpose: String,
    pub public_key_hex: String,
    pub encrypted_secret: Vec<u8>,
}

/// The compressed public key of a valid secret key.
pub uninterp spec fn secp_public_key(secret: Seq<u8>) -> Seq<u8>;

/// The AES-256-GCM ciphertext (with its tag) of `msg` under `key`, `nonce`
/// and associated data `aad`.
pub uninterp spec fn aes256gcm_sealed(key: Seq<u8>, nonce: Seq<u8>, msg: Seq<u8>, aad: Seq<u8>) -> Seq<u8>;

/// What AES-256-GCM decryption of `ct` gives, `None` when it is refused.
pub uninterp spec fn aes256gcm_opened(key: Seq<u8>, nonce: Seq<u8>, ct: Seq<u8>, aad: Seq<u8>) -> Option<Seq<u8>>;

/// 12 bytes from the operating system's random source (`OsRng::fill_bytes`);
/// only their number is stated.
#[verifier::external_body]
fn random_nonce() -> (n: Vec<u8>)
    ensures
        n@.len() == AES_GCM_NONCE_LEN,
{
    let mut nonce = [0u8; 12];
    secp256k1::rand::RngCore::fill_bytes(&mut secp256k1::rand::rngs::OsRng, &mut nonce);
    nonce.to_vec()
}

/// `Aes256Gcm::new_from_slice(key)` then `Aead::encrypt` with a payload of
/// `msg` and `aad`. Claimed: it succeeds for messages and associated data of
/// at most 2^36 bytes (the crate's `P_MAX` and `A_MAX`), and the ciphertext
/// is the message's length plus the 16-byte tag.
#[verifier::external_body]
fn aes_gcm_seal(key: &[u8; 32], nonce: &[u8], msg: &[u8], aad: &[u8]) -> (ct: Option<Vec<u8>>)
    requires
        nonce@.len() == AES_GCM_NONCE_LEN,
        msg@.len() <= 0x10_0000_0000,
        aad@.len() <= 0x10_0000_0000,
    ensures
        ct is Some,
        ct matches Some(c) ==> c@ == aes256gcm_sealed(key@, nonce@, msg@, aad@),
        ct matches Some(c) ==> c@.len() == msg@.len() + 16,
{
    let cipher = aes_gcm::Aes256Gcm::new_from_slice(key).ok()?;
    cipher.encrypt(aes_gcm::Nonce::from_slice(nonce), aes_gcm::aead::Payload { msg, aad }).ok()
}

/// `Aes256Gcm::new_from_slice(key)` then `Aead::decrypt`. Claimed: the
/// result is a function of its arguments, and decrypting what `encrypt`
/// produced under the same key, nonce and associated data gives the message
/// back, for messages and associated data within the crate's limits of 2^36
/// bytes (`P_MAX`, `A_MAX`), the only ones `encrypt` accepts.
#[verifier::external_body]
fn aes_gcm_open(key: &[u8; 32], nonce: &[u8], ct: &[u8], aad: &[u8]) -> (pt: Option<Vec<u8>>)
    requires
        nonce@.len() == AES_GCM_NONCE_LEN,
    ensures
        pt is Some <==> aes256gcm_opened(key@, nonce@, ct@, aad@) is Some,
        pt matches Some(p) ==> aes256gcm_opened(key@, nonce@, ct@, aad@) == Some(p@),
        forall|m: Seq<u8>|
            m.len() <= 0x10_0000_0000 && aad@.len() <= 0x10_0000_0000 && ct@ == #[trigger] aes256gcm_sealed(
                key@,
                nonce@,
                m,
                aad@,
            ) ==> (pt is Some && pt->Some_0@ == m),
{
    let cipher = aes_gcm::Aes256Gcm::new_from_slice(key).ok()?;
    cipher.decrypt(aes_gcm::Nonce::from_slice(nonce), aes_gcm::aead::Payload { msg: ct, aad }).ok()
}

/// `Secp256k1::generate_keypair(&mut OsRng)`: a random valid secret key and
/// its compressed public key (`PublicKey::serialize`).
#[verifier::external_body]
fn secp_generate() -> (pair: (Vec<u8>, Vec<u8>))
    ensures
        pair.0@.len() == 32,
        secret_key_valid(pair.0@),
        pair.1@ == secp_public_key(pair.0@),
        pair.1@.len() == 33,
{
    let secp = secp256k1::Secp256k1::new();
    let (secret, public) = secp.generate_keypair(&mut secp256k1::rand::rngs::OsRng);
    (secret.secret_bytes().to_vec(), public.serialize().to_vec())
}

/// `SecretKey::from_slice` succeeds: 32 bytes within the curve order.
#[verifier::external_body]
fn secret_key_parses(bytes: &[u8]) -> (ok: bool)
    ensures
        ok == (bytes@.len() == 32 && secret_key_valid(bytes@)),
{
    secp256k1::SecretKey::from_slice(bytes).is_ok()
}

/// `PublicKey::from_secret_key(..).serialize()`: the compressed public key.
#[verifier::external_body]
fn secp_public_of(secret: &[u8]) -> (public: Vec<u8>)
    requires
        secret@.len() == 32,
        secret_key_valid(secret@),
    ensures
        public@ == secp_public_key(secret@),
        public@.len() == 33,
{
    let secp = secp256k1::Secp256k1::new();
    let key = secp256k1::SecretKey::from_slice(secret).expect("validated by the caller");
    secp256k1::PublicKey::from_secret_key(&secp, &key).serialize().to_vec()
}

/// The associated data of a sealed secret: the bytes of `{key_ref}:{purpose}`.
pub open spec fn aad_spec(key_ref: Seq<char>, purpose: Seq<char>) -> Seq<u8> {
    vstd::utf8::encode_utf8(key_ref + ":"@ + purpose)
}

pub fn provisioning_aad(key_ref: &str, purpose: &str) -> (aad: Vec<u8>)
    ensures
        aad@ == aad_spec(key_ref@, purpose@),
{
    let mut s = key_ref.to_string();
    push_all(&mut s, ":");
    push_all(&mut s, purpose);
    let bytes = s.as_str().as_bytes();
    let mut out: Vec<u8> = Vec::new();
    let mut i: usize = 0;
    while i < bytes.len()
        invariant
            i <= bytes@.len(),
            out@ == bytes@.take(i as int),
        decreases bytes.len() - i,
    {
        out.push(bytes[i]);
        i += 1;
        assert(out@ =~= bytes@.take(i as int));
    }
    assert(bytes@.take(bytes@.len() as int) =~= bytes@);
    out
}

/// An envelope sealing `msg` under `nonce`.
pub open spec fn envelope_of(key: Seq<u8>, nonce: Seq<u8>, msg: Seq<u8>, aad: Seq<u8>) -> Seq<u8> {
    seq![PROVISIONING_KEY_ENVELOPE_VERSION] + nonce + aes256gcm_sealed(key, nonce, msg, aad)
}

/// What opening an envelope gives: it must be longer than the header, carry
/// version 1, decrypt, and hold a valid secret key.
pub open spec fn opened_secret(key: Seq<u8>, aad: Seq<u8>, envelope: Seq<u8>) -> Result<Seq<u8>, Seq<char>> {
    if envelope.len() <= 1 + AES_GCM_NONCE_LEN {
        Err("encrypted provisioning secret is truncated"@)
    } else if envelope[0] != PROVISIONING_KEY_ENVELOPE_VERSION {
        Err("unsupported provisioning secret envelope version: "@ + decimal_text(envelope[0] as nat))
    } else {
        match aes256gcm_opened(key, envelope.subrange(1, 13), envelope.skip(13), aad) {
            None => Err("decrypting provisioning secret"@),
            Some(m) => if m.len() == 32 && secret_key_valid(m) {
                Ok(m)
            } else {
                Err("stored provisioning secret is not a valid key"@)
            },
        }
    }
}

/// What loading a stored key gives: the opened secret with its public key
/// when that matches the stored one, else the reason it does not load. A row
/// sealed from a valid secret, with that secret's public key, loads as that
/// keypair.
pub open spec fn loaded_keypair(store_key: Seq<u8>, row: ProvisioningKeyRow, res: Result<KeyPair, String>) -> bool {
    &&& match opened_secret(store_key, aad_spec(row.key_ref@, row.key_purpose@), row.encrypted_secret@) {
        Err(e) => res matches Err(x) && x@ == e,
        Ok(m) => if hex_lower(secp_public_key(m)) == row.public_key_hex@ {
            res matches Ok(k) && k.secret_key@ == m && k.public_key@ == secp_public_key(m)
        } else {
            res matches Err(x) && x@ == "stored provisioning key public key does not match decrypted secret"@
        },
    }
    &&& forall|nonce: Seq<u8>, m: Seq<u8>|
        nonce.len() == AES_GCM_NONCE_LEN && m.len() == 32 && secret_key_valid(m) && row.encrypted_secret@.len() > 1
            + AES_GCM_NONCE_LEN && aad_spec(row.key_ref@, row.key_purpose@).len() <= 0x10_0000_0000
            && row.public_key_hex@ == hex_lower(secp_public_key(m))
            && row.encrypted_secret@ == #[trigger] envelope_of(
            store_key,
            nonce,
            m,
            aad_spec(row.key_ref@, row.key_purpose@),
        ) ==> (res matches Ok(k) && k.secret_key@ == m && k.public_key@ == secp_public_key(m))
}

/// The row and keypair that generating a key for `purpose` gives.
pub open spec fn generated_row(store_key: Seq<u8>, purpose: Seq<char>, row: ProvisioningKeyRow, k: KeyPair) -> bool {
    &&& k.secret_key@.len() == 32 && secret_key_valid(k.secret_key@)
    &&& k.public_key@ == secp_public_key(k.secret_key@)
    &&& row.key_ref@ == key_ref_spec(purpose, k.public_key@)
    &&& row.key_purpose@ == purpose
    &&& row.public_key_hex@ == hex_lower(k.public_key@)
    &&& row.encrypted_secret@.len() == 1 + AES_GCM_NONCE_LEN + 48
    &&& aad_spec(row.key_ref@, purpose).len() <= 0x10_0000_0000
    &&& exists|nonce: Seq<u8>|
        nonce.len() == AES_GCM_NONCE_LEN && row.encrypted_secret@ == envelope_of(
            store_key,
            nonce,
            k.secret_key@,
            aad_spec(row.key_ref@, purpose),
        )
}

/// A generated key, once stored, loads back as the same keypair.
pub proof fn generated_key_loads_back(
    store_key: Seq<u8>,
    purpose: Seq<char>,
    row: ProvisioningKeyRow,
    generated: KeyPair,
    loaded: Result<KeyPair, String>,
)
    requires
        generated_row(store_key, purpose, row, generated),
        loaded_keypair(store_key, row, loaded),
    ensures
        loaded matches Ok(k) && k.secret_key@ == generated.secret_key@ && k.public_key@ == generated.public_key@,
{
    let nonce = choose|nonce: Seq<u8>|
        nonce.len() == AES_GCM_NONCE_LEN && row.encrypted_secret@ == envelope_of(
            store_key,
            nonce,
            generated.secret_key@,
            aad_spec(row.key_ref@, purpose),
        );
    assert(row.encrypted_secret@ == envelope_of(
        store_key,
        nonce,
        generated.secret_key@,
        aad_spec(row.key_ref@, row.key_purpose@),
    ));
}

/// The key store that keeps sealed secrets in the database.
pub struct DbProvisioningKeyStore {
    database_url: String,
    encryption_key: [u8; 32],
}

/// The key store that only generates keys.
pub struct GeneratedKeyStore;

/// The reference of a generated key: `{purpose}:{public key hex}`.
pub open spec fn key_ref_spec(purpose: Seq<char>, public_key: Seq<u8>) -> Seq<char> {
    purpose + ":"@ + hex_lower(public_key)
}

fn key_ref_of(purpose: &str, public_key: &[u8]) -> (r: String)
    ensures
        r@ == key_ref_spec(purpose@, public_key@),
{
    let mut r = purpose.to_string();
    push_all(&mut r, ":");
    let hex = hex_encode(public_key);
    push_all(&mut r, hex.as_str());
    r
}

impl GeneratedKeyStore {
    /// A fresh keypair, referenced by purpose and public key.
    pub fn generate_keypair(&self, purpose: &str) -> (res: (String, KeyPair))
        ensures
            res.1.secret_key@.len() == 32 && secret_key_valid(res.1.secret_key@),
            res.1.public_key@ == secp_public_key(res.1.secret_key@),
            res.0@ == key_ref_spec(purpose@, res.1.public_key@),
    {
        let (secret_key, public_key) = secp_generate();
        let key_ref = key_ref_of(purpose, public_key.as_slice());
        (key_ref, KeyPair { secret_key, public_key })
    }
}

impl DbProvisioningKeyStore {
    /// The key that seals the store's secrets.
    pub closed spec fn key(&self) -> Seq<u8> {
        self.encryption_key@
    }

    /// Where the store's rows live.
    pub closed spec fn url(&self) -> Seq<char> {
        self.database_url@
    }

    pub fn database_url(&self) -> (u: &str)
        ensures
            u@ == self.url(),
    {
        self.database_url.as_str()
    }

    pub fn new(database_url: String, encryption_key: [u8; 32]) -> (s: DbProvisioningKeyStore)
        ensures
            s.url() == database_url@,
            s.key() == encryption_key@,
    {
        DbProvisioningKeyStore { database_url, encryption_key }
    }

    /// Seal a secret key under a fresh nonce; sealing is refused when the
    /// associated data exceeds AES-GCM's limit of 2^36 bytes.
    pub fn encrypt_secret(&self, key_ref: &str, purpose: &str, secret: &[u8]) -> (res: Result<Vec<u8>, String>)
        requires
            secret@.len() == 32,
        ensures
            aad_spec(key_ref@, purpose@).len() > 0x10_0000_0000 ==> (res matches Err(m) && m@
                == "encrypting provisioning secret"@),
            aad_spec(key_ref@, purpose@).len() <= 0x10_0000_0000 ==> (res matches Ok(env) && env@.len() == 1
                + AES_GCM_NONCE_LEN + 48 && exists|nonce: Seq<u8>|
                nonce.len() == AES_GCM_NONCE_LEN && env@ == envelope_of(
                    self.key(),
                    nonce,
                    secret@,
                    aad_spec(key_ref@, purpose@),
                )),
    {
        let aad = provisioning_aad(key_ref, purpose);
        if aad.len() as u64 > 0x10_0000_0000u64 {
            return Err("encrypting provisioning secret".to_string());
        }
        let nonce = random_nonce();
        let ct = match aes_gcm_seal(&self.encryption_key, nonce.as_slice(), secret, aad.as_slice()) {
            Some(c) => c,
            None => return Err("encrypting provisioning secret".to_string()),
        };
        let mut envelope: Vec<u8> = Vec::new();
        envelope.push(PROVISIONING_KEY_ENVELOPE_VERSION);
        let mut i: usize = 0;
        while i < nonce.len()
            invariant
                i <= nonce@.len(),
                envelope@ == seq![PROVISIONING_KEY_ENVELOPE_VERSION] + nonce@.take(i as int),
            decreases nonce.len() - i,
        {
            envelope.push(nonce[i]);
            i += 1;
            assert(envelope@ =~= seq![PROVISIONING_KEY_ENVELOPE_VERSION] + nonce@.take(i as int));
        }
        let ghost head = envelope@;
        let mut j: usize = 0;
        while j < ct.len()
            invariant
                j <= ct@.len(),
                envelope@ == head + ct@.take(j as int),
            decreases ct.len() - j,
        {
            envelope.push(ct[j]);
            j += 1;
            assert(envelope@ =~= head + ct@.take(j as int));
        }
        assert(nonce@.take(nonce@.len() as int) =~= nonce@);
        assert(ct@.take(ct@.len() as int) =~= ct@);
        Ok(envelope)
    }

    /// Open a sealed secret.
    pub fn decrypt_secret(&self, key_ref: &str, purpose: &str, envelope: &[u8]) -> (res: Result<Vec<u8>, String>)
        ensures
            match opened_secret(self.key(), aad_spec(key_ref@, purpose@), envelope@) {
                Ok(m) => res matches Ok(x) && x@ == m,
                Err(e) => res matches Err(x) && x@ == e,
            },
            forall|nonce: Seq<u8>, m: Seq<u8>|
                nonce.len() == AES_GCM_NONCE_LEN && m.len() == 32 && secret_key_valid(m) && envelope@.len() > 1
                    + AES_GCM_NONCE_LEN && aad_spec(key_ref@, purpose@).len() <= 0x10_0000_0000 && envelope@ == #[trigger] envelope_of(self.key(), nonce, m, aad_spec(key_ref@, purpose@)) ==> (res matches Ok(
                    x,
                ) && x@ == m),
    {
        if envelope.len() <= 1 + AES_GCM_NONCE_LEN {
            return Err("encrypted provisioning secret is truncated".to_string());
        }
        if envelope[0] != PROVISIONING_KEY_ENVELOPE_VERSION {
            let mut m = "unsupported provisioning secret envelope version: ".to_string();
            let v = u64_to_decimal(envelope[0] as u64);
            push_all(&mut m, v.as_str());
            return Err(m);
        }
        let mut nonce: Vec<u8> = Vec::new();
        let mut i: usize = 1;
        while i < 13
            invariant
                1 <= i <= 13 <= envelope@.len(),
                nonce@ == envelope@.subrange(1, i as int),
            decreases 13 - i,
        {
            nonce.push(envelope[i]);
            i += 1;
            assert(nonce@ =~= envelope@.subrange(1, i as int));
        }
        let mut ct: Vec<u8> = Vec::new();
        let mut j: usize = 13;
        while j < envelope.len()
            invariant
                13 <= j <= envelope@.len(),
                ct@ == envelope@.subrange(13, j as int),
            decreases envelope.len() - j,
        {
            ct.push(envelope[j]);
            j += 1;
            assert(ct@ =~= envelope@.subrange(13, j as int));
        }
        assert(ct@ =~= envelope@.skip(13));
        let aad = provisioning_aad(key_ref, purpose);
        let opened = aes_gcm_open(&self.encryption_key, nonce.as_slice(), ct.as_slice(), aad.as_slice());
        proof {
            assert forall|n: Seq<u8>, m: Seq<u8>|
                n.len() == AES_GCM_NONCE_LEN && envelope@ == #[trigger] envelope_of(
                    self.key(),
                    n,
                    m,
                    aad_spec(key_ref@, purpose@),
                ) implies n == nonce@ && ct@ == aes256gcm_sealed(self.key(), n, m, aad@) by {
                let e = envelope_of(self.key(), n, m, aad_spec(key_ref@, purpose@));
                assert(e.subrange(1, 13) =~= n);
                assert(e.skip(13) =~= aes256gcm_sealed(self.key(), n, m, aad@));
            }
        }
        let secret = match opened {
            Some(p) => p,
            None => return Err("decrypting provisioning secret".to_string()),
        };
        if !secret_key_parses(secret.as_slice()) {
            return Err("stored provisioning secret is not a valid key".to_string());
        }
        Ok(secret)
    }

    /// The keypair of a stored key: its secret must open and match the
    /// stored public key.
    pub fn keypair_from_row(&self, row: &ProvisioningKeyRow) -> (res: Result<KeyPair, String>)
        ensures
            loaded_keypair(self.key(), *row, res),
    {
        let secret_key = self.decrypt_secret(
            row.key_ref.as_str(),
            row.key_purpose.as_str(),
            row.encrypted_secret.as_slice(),
        )?;
        let public_key = secp_public_of(secret_key.as_slice());
        let derived_hex = hex_encode(public_key.as_slice());
        if !str_equal(derived_hex.as_str(), row.public_key_hex.as_str()) {
            return Err("stored provisioning key public key does not match decrypted secret".to_string());
        }
        Ok(KeyPair { secret_key, public_key })
    }

    /// A fresh keypair, and the row that stores it sealed under its reference
    /// `{purpose}:{public key hex}`.
    pub fn generate_keypair(&self, purpose: &str) -> (res: Result<(ProvisioningKeyRow, KeyPair), String>)
        ensures
            match res {
                Ok((row, k)) => generated_row(self.key(), purpose@, row, k),
                Err(m) => m@ == "encrypting provisioning secret"@,
            },
    {
        let (secret_key, public_key) = secp_generate();
        let public_key_hex = hex_encode(public_key.as_slice());
        let mut key_ref = purpose.to_string();
        push_all(&mut key_ref, ":");
        push_all(&mut key_ref, public_key_hex.as_str());
        let encrypted_secret = self.encrypt_secret(key_ref.as_str(), purpose, secret_key.as_slice())?;
        Ok(
            (
                ProvisioningKeyRow {
                    key_ref,
                    key_purpose: purpose.to_string(),
                    public_key_hex,
                    encrypted_secret,
                },
                KeyPair { secret_key, public_key },
            ),
        )
    }
}

} // verus!
