//! Nostr event signature verification (NIP-01 ids, BIP-340 Schnorr signatures).
//!
//! The event id must be the hex SHA-256 of the canonical serialisation
//! `[0, pubkey, created_at, kind, tags, content]`, and `sig` must be a BIP-340
//! signature over that digest by the x-only key `pubkey`.

use vstd::prelude::*;
use crate::chars::str_equal;
use crate::event::NostrEvent;
use crate::json::{json_compact_text, write_json_text, JsonNumber, JsonTree, JsonValue};
use crate::translator::{sha256_digest, spec_sha256};

verus! {

/// Lower-case hex digit for a value below 16.
pub open spec fn hex_digit(n: int) -> char {
    if n < 10 {
        (n + 48) as char
    } else {
        (n + 87) as char
    }
}

/// Lower-case hex text of a byte string, two digits per byte.
pub open spec fn hex_lower(b: Seq<u8>) -> Seq<char>
    decreases b.len(),
{
    if b.len() == 0 {
        Seq::empty()
    } else {
        hex_lower(b.drop_last()) + seq![hex_digit(b.last() as int / 16), hex_digit(b.last() as int % 16)]
    }
}

/// Value of a hex digit of either case, or -1 for any other character.
pub open spec fn hex_value(c: char) -> int {
    if '0' <= c && c <= '9' {
        c as int - 48
    } else if 'a' <= c && c <= 'f' {
        c as int - 87
    } else if 'A' <= c && c <= 'F' {
        c as int - 55
    } else {
        -1
    }
}

/// Text that decodes as hex: an even number of hex digits.
pub open spec fn is_hex_text(s: Seq<char>) -> bool {
    &&& s.len() % 2 == 0
    &&& forall|i: int| 0 <= i < s.len() ==> hex_value(#[trigger] s[i]) >= 0
}

/// The bytes that hex text stands for, one byte per pair of digits.
pub open spec fn hex_bytes(s: Seq<char>) -> Seq<u8> {
    Seq::new(s.len() / 2, |i: int| (hex_value(s[2 * i]) * 16 + hex_value(s[2 * i + 1])) as u8)
}

/// `hex::encode`: lower-case hex, two digits per byte.
#[verifier::external_body]
pub(crate) fn hex_encode(data: &[u8]) -> (res: String)
    ensures
        res@ == hex_lower(data@),
{
    hex::encode(data)
}

/// `hex::decode`: fails on odd length or on a character that is not a hex
/// digit (either case); otherwise each pair of digits is one byte.
#[verifier::external_body]
pub(crate) fn hex_decode(s: &str) -> (res: Option<Vec<u8>>)
    ensures
        res is Some <==> is_hex_text(s@),
        res matches Some(v) ==> v@ == hex_bytes(s@),
{
    match hex::decode(s) {
        Ok(v) => Some(v),
        Err(_) => None,
    }
}

/// The tree of a tag list: an array of arrays of strings.
pub open spec fn tags_tree(tags: Seq<Seq<Seq<char>>>) -> JsonTree {
    JsonTree::Array(tags.map_values(|tag: Seq<Seq<char>>| JsonTree::Array(tag.map_values(|x: Seq<char>| JsonTree::Str(x)))))
}

/// The NIP-01 serialisation array of an event:
/// `[0, pubkey, created_at, kind, tags, content]`.
pub open spec fn canonical_event_tree(e: NostrEvent) -> JsonTree {
    JsonTree::Array(
        seq![
            JsonTree::Number(JsonNumber::Unsigned(0)),
            JsonTree::Str(e.pubkey@),
            JsonTree::Number(JsonNumber::Signed(e.created_at)),
            JsonTree::Number(JsonNumber::Unsigned(e.kind)),
            tags_tree(e.tags_view()),
            JsonTree::Str(e.content@),
        ],
    )
}

/// A string array value of a tag.
fn tag_value(tag: &Vec<String>) -> (v: JsonValue)
    ensures
        v@ == JsonTree::Array(tag@.map_values(|x: String| x@).map_values(|x: Seq<char>| JsonTree::Str(x))),
{
    let mut items: Vec<JsonValue> = Vec::new();
    let mut i: usize = 0;
    while i < tag.len()
        invariant
            i <= tag@.len(),
            items@.len() == i,
            forall|j: int| 0 <= j < i ==> (#[trigger] items@[j])@ == JsonTree::Str(tag@[j]@),
        decreases tag.len() - i,
    {
        items.push(JsonValue::String(tag[i].clone()));
        i += 1;
    }
    let v = JsonValue::Array(items);
    assert(v@ =~= JsonTree::Array(tag@.map_values(|x: String| x@).map_values(|x: Seq<char>| JsonTree::Str(x)))) by {
        if let JsonTree::Array(s) = v@ {
            assert(s =~= tag@.map_values(|x: String| x@).map_values(|x: Seq<char>| JsonTree::Str(x)));
        }
    }
    v
}

/// The NIP-01 serialisation array of `event` as a JSON value.
pub fn canonical_event_value(event: &NostrEvent) -> (v: JsonValue)
    ensures
        v@ == canonical_event_tree(*event),
{
    let mut tags: Vec<JsonValue> = Vec::new();
    let mut i: usize = 0;
    while i < event.tags.len()
        invariant
            i <= event.tags@.len(),
            tags@.len() == i,
            forall|j: int| 0 <= j < i ==> (#[trigger] tags@[j])@ == JsonTree::Array(
                event.tags@[j]@.map_values(|x: String| x@).map_values(|x: Seq<char>| JsonTree::Str(x)),
            ),
        decreases event.tags.len() - i,
    {
        tags.push(tag_value(&event.tags[i]));
        i += 1;
    }
    let tags_v = JsonValue::Array(tags);
    assert(tags_v@ =~= tags_tree(event.tags_view())) by {
        if let JsonTree::Array(s) = tags_v@ {
            assert forall|j: int| 0 <= j < s.len() implies s[j] == tags_tree(event.tags_view())->Array_0[j] by {
                assert(event.tags_view()[j] =~= event.tags@[j]@.map_values(|x: String| x@));
            }
            assert(s =~= tags_tree(event.tags_view())->Array_0);
        }
    }
    let ghost tags_t = tags_v@;
    let mut items: Vec<JsonValue> = Vec::new();
    items.push(JsonValue::Number(JsonNumber::Unsigned(0)));
    items.push(JsonValue::String(event.pubkey.clone()));
    items.push(JsonValue::Number(JsonNumber::Signed(event.created_at)));
    items.push(JsonValue::Number(JsonNumber::Unsigned(event.kind)));
    items.push(tags_v);
    items.push(JsonValue::String(event.content.clone()));
    assert(items@[4]@ == tags_tree(event.tags_view()));
    assert(items@[0]@ == JsonTree::Number(JsonNumber::Unsigned(0)));
    assert(items@[1]@ == JsonTree::Str(event.pubkey@));
    assert(items@[2]@ == JsonTree::Number(JsonNumber::Signed(event.created_at)));
    assert(items@[3]@ == JsonTree::Number(JsonNumber::Unsigned(event.kind)));
    assert(items@[5]@ == JsonTree::Str(event.content@));
    let v = JsonValue::Array(items);
    assert(v@ =~= canonical_event_tree(*event)) by {
        if let JsonTree::Array(s) = v@ {
            assert(s[0] == JsonTree::Number(JsonNumber::Unsigned(0)));
            assert(s[1] == JsonTree::Str(event.pubkey@));
            assert(s[2] == JsonTree::Number(JsonNumber::Signed(event.created_at)));
            assert(s[3] == JsonTree::Number(JsonNumber::Unsigned(event.kind)));
            assert(s[4] == tags_tree(event.tags_view()));
            assert(s[5] == JsonTree::Str(event.content@));
            assert(s =~= canonical_event_tree(*event)->Array_0);
        }
    }
    v
}

/// The canonical array that an event's id is computed from holds
/// `[0, pubkey, created_at, kind, tags, content]` with every tag whole: row
/// `i` of its tags array holds all the strings of the event's tag `i`, in
/// order, whatever the tags' lengths.
pub proof fn canonical_tree_holds_every_tag_whole(e: NostrEvent)
    ensures
        canonical_event_tree(e) is Array,
        canonical_event_tree(e)->Array_0.len() == 6,
        canonical_event_tree(e)->Array_0[0] == JsonTree::Number(JsonNumber::Unsigned(0)),
        canonical_event_tree(e)->Array_0[1] == JsonTree::Str(e.pubkey@),
        canonical_event_tree(e)->Array_0[2] == JsonTree::Number(JsonNumber::Signed(e.created_at)),
        canonical_event_tree(e)->Array_0[3] == JsonTree::Number(JsonNumber::Unsigned(e.kind)),
        canonical_event_tree(e)->Array_0[5] == JsonTree::Str(e.content@),
        canonical_event_tree(e)->Array_0[4] is Array,
        canonical_event_tree(e)->Array_0[4]->Array_0.len() == e.tags_view().len(),
        forall|i: int|
            0 <= i < e.tags_view().len() ==> (#[trigger] canonical_event_tree(e)->Array_0[4]->Array_0[i]) is Array
                && canonical_event_tree(e)->Array_0[4]->Array_0[i]->Array_0.len() == e.tags_view()[i].len(),
        forall|i: int, j: int|
            0 <= i < e.tags_view().len() && 0 <= j < e.tags_view()[i].len() ==> #[trigger] canonical_event_tree(
                e,
            )->Array_0[4]->Array_0[i]->Array_0[j] == JsonTree::Str(e.tags_view()[i][j]),
{
}

/// The prime of the secp256k1 field.
pub open spec fn secp256k1_field_prime() -> nat {
    0xFFFFFFFFFFFFFFFFFFFFFFFFFFFFFFFFFFFFFFFFFFFFFFFFFFFFFFFEFFFFFC2Fnat
}

/// Whether bytes, read big-endian, are the x coordinate of a point on
/// secp256k1 (`y^2 = x^3 + 7`): below the field prime, with `x^3 + 7` a
/// square modulo it.
pub open spec fn xonly_key_parses(key: Seq<u8>) -> bool {
    let p = secp256k1_field_prime();
    let x = crate::encoding::be_value(key);
    &&& x < p
    &&& exists|y: nat| y < p && #[trigger] ((y * y) % p) == (x * x * x + 7) % p
}

/// Whether `sig` is a valid BIP-340 signature of `digest` under `key`.
pub uninterp spec fn bip340_verifies(key: Seq<u8>, sig: Seq<u8>, digest: Seq<u8>) -> bool;

/// `secp256k1::XOnlyPublicKey::from_slice`: accepts exactly 32 bytes that
/// encode a curve point.
#[verifier::external_body]
fn xonly_key_is_valid(key: &[u8]) -> (ok: bool)
    ensures
        ok <==> (key@.len() == 32 && xonly_key_parses(key@)),
{
    secp256k1::XOnlyPublicKey::from_slice(key).is_ok()
}

/// `Secp256k1::verify_schnorr` on a parsed key, a 64-byte signature
/// (`schnorr::Signature::from_slice`) and a 32-byte digest
/// (`Message::from_digest_slice`).
#[verifier::external_body]
fn schnorr_verify(key: &[u8], sig: &[u8], digest: &[u8]) -> (ok: bool)
    requires
        key@.len() == 32,
        xonly_key_parses(key@),
        sig@.len() == 64,
        digest@.len() == 32,
    ensures
        ok == bip340_verifies(key@, sig@, digest@),
{
    let secp = secp256k1::Secp256k1::verification_only();
    match (
        secp256k1::XOnlyPublicKey::from_slice(key),
        secp256k1::schnorr::Signature::from_slice(sig),
        secp256k1::Message::from_digest_slice(digest),
    ) {
        (Ok(k), Ok(s), Ok(m)) => secp.verify_schnorr(&s, &m, &k).is_ok(),
        _ => false,
    }
}

/// Why an event could not be checked at all.
#[derive(Debug, Clone, Copy, PartialEq, Eq, Structural)]
pub enum SignatureError {
    Serialization,
    PubkeyHex,
    Pubkey,
    SignatureHex,
    Signature,
}

/// The text of each signature error.
pub open spec fn signature_error_text(e: SignatureError) -> Seq<char> {
    match e {
        SignatureError::Serialization => "failed to serialize canonical event"@,
        SignatureError::PubkeyHex => "invalid pubkey hex"@,
        SignatureError::Pubkey => "invalid pubkey"@,
        SignatureError::SignatureHex => "invalid signature hex"@,
        SignatureError::Signature => "invalid signature"@,
    }
}

impl SignatureError {
    /// The error's text.
    pub fn message(&self) -> (s: String)
        ensures
            s@ == signature_error_text(*self),
    {
        match self {
            SignatureError::Serialization => "failed to serialize canonical event".to_string(),
            SignatureError::PubkeyHex => "invalid pubkey hex".to_string(),
            SignatureError::Pubkey => "invalid pubkey".to_string(),
            SignatureError::SignatureHex => "invalid signature hex".to_string(),
            SignatureError::Signature => "invalid signature".to_string(),
        }
    }
}

/// The SHA-256 digest that an event's id must spell in hex.
pub open spec fn event_digest(e: NostrEvent) -> Seq<u8> {
    spec_sha256(
        vstd::utf8::encode_utf8(
            json_compact_text(canonical_event_tree(e)),
        ),
    )
}

/// What checking an event gives once its canonical form is serialised: a
/// mismatched id is `false`; then the key and signature texts must decode
/// and parse; then the BIP-340 check decides.
pub open spec fn verification_result(e: NostrEvent) -> Result<bool, SignatureError> {
    let digest = event_digest(e);
    let key = hex_bytes(e.pubkey@);
    let sig = hex_bytes(e.sig@);
    if hex_lower(digest) != e.id@ {
        Ok(false)
    } else if !is_hex_text(e.pubkey@) {
        Err(SignatureError::PubkeyHex)
    } else if !(key.len() == 32 && xonly_key_parses(key)) {
        Err(SignatureError::Pubkey)
    } else if !is_hex_text(e.sig@) {
        Err(SignatureError::SignatureHex)
    } else if sig.len() != 64 {
        Err(SignatureError::Signature)
    } else {
        Ok(bip340_verifies(key, sig, digest))
    }
}

/// Verify a Nostr event's Schnorr signature.
///
/// `Ok(true)` exactly when the id is the hex digest of the canonical
/// serialisation and the signature verifies under the event's key.
pub fn verify_nostr_event(event: &NostrEvent) -> (res: Result<bool, SignatureError>)
    ensures
        res == verification_result(*event),
{
    let canonical = write_json_text(&canonical_event_value(event));
    let digest = sha256_digest(canonical.as_str().as_bytes());
    let computed_id = hex_encode(digest.as_slice());
    if !str_equal(computed_id.as_str(), event.id.as_str()) {
        return Ok(false);
    }
    let key = match hex_decode(event.pubkey.as_str()) {
        Some(k) => k,
        None => return Err(SignatureError::PubkeyHex),
    };
    if !xonly_key_is_valid(key.as_slice()) {
        return Err(SignatureError::Pubkey);
    }
    let sig = match hex_decode(event.sig.as_str()) {
        Some(s) => s,
        None => return Err(SignatureError::SignatureHex),
    };
    if sig.len() != 64 {
        return Err(SignatureError::Signature);
    }
    Ok(schnorr_verify(key.as_slice(), sig.as_slice(), digest.as_slice()))
}

} // verus!
