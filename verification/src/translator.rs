//! NIP-71 to ATProto record translation.
//!
//! Translates verified NIP-71 Nostr events into ATProto `app.bsky.feed.post`
//! records with `app.bsky.embed.video` embeds, and derives the record key.

use vstd::prelude::*;
use vstd::arithmetic::div_mod::{lemma_fundamental_div_mod, lemma_fundamental_div_mod_converse, lemma_mod_multiples_basic};
use sha2::Digest;
use crate::chars::{
    ascii_lower_seq, byte_len, char_vec, is_alphanumeric_ascii, is_ascii_alphanumeric,
    string_from_chars, string_from_range, to_ascii_lowercase,
};
use crate::event::{
    get_imeta_field, get_tag, get_tags, imeta_value, strings_view, tag_value, tag_values,
    BlobRef, NostrEvent,
};
use crate::text_builder::{build_post_text, full_post_text, hashtag_facets_of, post_text, utf8_byte_len, Facet, MAX_POST_GRAPHEMES};

verus! {

broadcast use vstd::seq_lib::group_seq_properties;

// ---------------------------------------------------------------------------
// ATProto record types
// ---------------------------------------------------------------------------

/// An `app.bsky.feed.post` record.
pub struct AtProtoPost {
    pub type_: String,
    pub text: String,
    pub created_at: String,
    pub facets: Vec<Facet>,
    pub langs: Option<Vec<String>>,
    pub embed: Option<VideoEmbed>,
    pub labels: Option<SelfLabels>,
}

/// An `app.bsky.embed.video` embed.
pub struct VideoEmbed {
    pub type_: String,
    pub video: BlobRef,
    pub alt: Option<String>,
    pub aspect_ratio: Option<AspectRatio>,
}

/// Width and height of a video, reduced by their greatest common divisor.
#[derive(Debug, Clone, Copy, PartialEq, Eq, Structural)]
pub struct AspectRatio {
    pub width: u32,
    pub height: u32,
}

/// `com.atproto.label.defs#selfLabels`.
pub struct SelfLabels {
    pub type_: String,
    pub values: Vec<SelfLabelValue>,
}

/// One self-applied label.
pub struct SelfLabelValue {
    pub val: String,
}

/// Translation never fails today; the error type keeps the result shape.
#[derive(Debug, Clone, Copy, PartialEq, Eq, Structural)]
pub enum TranslateError {
    Unsupported,
}

// ---------------------------------------------------------------------------
// Aspect ratio
// ---------------------------------------------------------------------------

/// Euclid's greatest common divisor.
pub open spec fn spec_gcd(a: nat, b: nat) -> nat
    decreases b,
{
    if b == 0 {
        a
    } else {
        spec_gcd(b, a % b)
    }
}

/// The gcd divides both arguments and is positive when the first one is.
pub proof fn lemma_gcd_divides(a: nat, b: nat)
    ensures
        a > 0 || b > 0 ==> spec_gcd(a, b) > 0,
        spec_gcd(a, b) > 0 ==> a % spec_gcd(a, b) == 0 && b % spec_gcd(a, b) == 0,
        spec_gcd(a, b) <= a || b > 0,
    decreases b,
{
    if b > 0 {
        let r = a % b;
        lemma_gcd_divides(b, r);
        let g = spec_gcd(b, r);
        assert(g == spec_gcd(a, b));
        if g > 0 {
            lemma_fundamental_div_mod(b as int, g as int);
            lemma_fundamental_div_mod(r as int, g as int);
            lemma_fundamental_div_mod(a as int, b as int);
            let x = b as int / g as int;
            let y = r as int / g as int;
            let q = a as int / b as int;
            assert(b == g * x);
            assert(r == g * y);
            assert(a == b * q + r);
            assert(a == (x * q + y) * g) by (nonlinear_arith)
                requires
                    b == g * x,
                    r == g * y,
                    a == b * q + r,
            ;
            lemma_mod_multiples_basic(x * q + y, g as int);
        }
    }
}

/// Scaling both arguments scales the gcd.
proof fn lemma_gcd_scale(c: nat, x: nat, y: nat)
    requires
        c > 0,
    ensures
        spec_gcd(c * x, c * y) == c * spec_gcd(x, y),
    decreases y,
{
    if y > 0 {
        let q = x as int / y as int;
        let r = x as int % y as int;
        lemma_fundamental_div_mod(x as int, y as int);
        assert(c * x == q * (c * y) + c * r) by (nonlinear_arith)
            requires
                x == y * q + r,
        ;
        assert(0 <= c * r < c * y) by (nonlinear_arith)
            requires
                0 <= r < y,
                c > 0,
        ;
        assert(c * y > 0) by (nonlinear_arith)
            requires
                c > 0,
                y > 0,
        ;
        lemma_fundamental_div_mod_converse((c * x) as int, (c * y) as int, q, c * r);
        assert((c * x) % (c * y) == c * (x % y));
        lemma_gcd_scale(c, y, x % y);
    } else {
        assert(c * y == 0) by (nonlinear_arith)
            requires
                y == 0,
        ;
    }
}

/// A positive `w:h` divided by its gcd is in lowest terms and keeps the
/// ratio: the parts are coprime and `w' * h == h' * w`.
pub proof fn reduced_ratio_is_lowest_terms(w: nat, h: nat)
    requires
        w > 0,
        h > 0,
    ensures
        spec_gcd(w / spec_gcd(w, h), h / spec_gcd(w, h)) == 1,
        (w / spec_gcd(w, h)) * h == (h / spec_gcd(w, h)) * w,
{
    lemma_gcd_divides(w, h);
    let g = spec_gcd(w, h);
    let x = w / g;
    let y = h / g;
    lemma_fundamental_div_mod(w as int, g as int);
    lemma_fundamental_div_mod(h as int, g as int);
    assert(w == g * x);
    assert(h == g * y);
    lemma_gcd_scale(g, x, y);
    assert(g * spec_gcd(x, y) == g * 1);
    vstd::arithmetic::mul::lemma_mul_equality_converse(g as int, spec_gcd(x, y) as int, 1);
    assert(x * h == y * w) by (nonlinear_arith)
        requires
            w == g * x,
            h == g * y,
    ;
}

/// A parsed aspect ratio is in lowest terms and has the ratio of the
/// parsed dimensions.
pub proof fn parsed_aspect_ratio_is_reduced(dim: Seq<char>)
    requires
        aspect_ratio_spec(dim) is Some,
    ensures
        ({
            let k = first_x(dim)->0;
            let w = parse_u32_spec(dim.take(k))->0;
            let h = parse_u32_spec(dim.skip(k + 1))->0;
            let r = aspect_ratio_spec(dim)->0;
            &&& w > 0 && h > 0
            &&& spec_gcd(r.width as nat, r.height as nat) == 1
            &&& r.width * h == r.height * w
        }),
{
    let k = first_x(dim)->0;
    let w = parse_u32_spec(dim.take(k))->0;
    let h = parse_u32_spec(dim.skip(k + 1))->0;
    reduced_ratio_is_lowest_terms(w as nat, h as nat);
    lemma_gcd_divides(w as nat, h as nat);
    let g = spec_gcd(w as nat, h as nat);
    assert(w as nat / g <= w);
    assert(h as nat / g <= h);
}

/// The gcd does not depend on the order of its arguments, and `gcd(a, 0)`
/// is `a`.
pub proof fn gcd_is_symmetric(a: nat, b: nat)
    ensures
        spec_gcd(a, b) == spec_gcd(b, a),
        spec_gcd(a, 0) == a,
{
    if a > 0 && b > 0 {
        if a < b {
            assert(a % b == a) by {
                lemma_fundamental_div_mod_converse(a as int, b as int, 0, a as int);
            }
            assert(spec_gcd(a, b) == spec_gcd(b, a % b));
        } else if b < a {
            assert(b % a == b) by {
                lemma_fundamental_div_mod_converse(b as int, a as int, 0, b as int);
            }
            assert(spec_gcd(b, a) == spec_gcd(a, b % a));
        }
    } else if a == 0 && b > 0 {
        assert(0nat % b == 0) by {
            lemma_fundamental_div_mod_converse(0, b as int, 0, 0);
        }
        assert(spec_gcd(0, b) == spec_gcd(b, 0nat % b));
    } else if b == 0 && a > 0 {
        assert(a % a == 0) by {
            lemma_fundamental_div_mod_converse(a as int, a as int, 1, 0);
        }
        assert(spec_gcd(0, a) == spec_gcd(a, 0nat % a)) by {
            assert(0nat % a == 0) by {
                lemma_fundamental_div_mod_converse(0, a as int, 0, 0);
            }
        }
    }
}

/// Every common divisor of `a` and `b` divides their gcd.
pub proof fn common_divisors_divide_gcd(a: nat, b: nat, d: nat)
    requires
        d > 0,
        a % d == 0,
        b % d == 0,
    ensures
        spec_gcd(a, b) % d == 0,
    decreases b,
{
    if b > 0 {
        let q = a as int / b as int;
        let r = a as int % b as int;
        lemma_fundamental_div_mod(a as int, b as int);
        lemma_fundamental_div_mod(a as int, d as int);
        lemma_fundamental_div_mod(b as int, d as int);
        let x = a as int / d as int;
        let y = b as int / d as int;
        assert(r == d * (x - y * q)) by (nonlinear_arith)
            requires
                a == b * q + r,
                a == d * x,
                b == d * y,
        ;
        assert(0 <= r);
        assert(x - y * q >= 0) by (nonlinear_arith)
            requires
                r == d * (x - y * q),
                r >= 0,
                d > 0,
        ;
        lemma_mod_multiples_basic(x - y * q, d as int);
        assert((r as nat) % d == 0) by {
            assert(r == (x - y * q) * d) by (nonlinear_arith)
                requires
                    r == d * (x - y * q),
            ;
        }
        common_divisors_divide_gcd(b, r as nat, d);
    }
}

/// Compute GCD of two numbers.
pub fn gcd(a: u32, b: u32) -> (g: u32)
    ensures
        g == spec_gcd(a as nat, b as nat),
{
    let ghost a0 = a;
    let ghost b0 = b;
    let mut a = a;
    let mut b = b;
    while b != 0
        invariant
            spec_gcd(a as nat, b as nat) == spec_gcd(a0 as nat, b0 as nat),
        decreases b,
    {
        let t = b;
        b = a % b;
        a = t;
    }
    a
}

/// The numeric value of a decimal digit string.
pub open spec fn digits_value(s: Seq<char>) -> nat
    decreases s.len(),
{
    if s.len() == 0 {
        0
    } else {
        digits_value(s.drop_last()) * 10 + ((s.last() as u32) - ('0' as u32)) as nat
    }
}

/// All characters are ASCII digits.
pub open spec fn all_digits(s: Seq<char>) -> bool {
    forall|i: int| 0 <= i < s.len() ==> '0' <= #[trigger] s[i] && s[i] <= '9'
}

/// `str::parse::<u32>`: an optional `+` followed by one or more ASCII digits
/// whose value fits in `u32`.
pub open spec fn parse_u32_spec(s: Seq<char>) -> Option<u32> {
    let body = unsigned_body(s);
    if body.len() > 0 && all_digits(body) && digits_value(body) <= u32::MAX {
        Some(digits_value(body) as u32)
    } else {
        None
    }
}

/// The digits of an unsigned number: the text after an optional leading `+`.
pub open spec fn unsigned_body(s: Seq<char>) -> Seq<char> {
    if s.len() > 0 && s[0] == '+' {
        s.drop_first()
    } else {
        s
    }
}

/// Digit values only grow when digits are appended.
pub proof fn lemma_digits_value_monotone(s: Seq<char>, i: int)
    requires
        0 <= i <= s.len(),
        all_digits(s),
    ensures
        digits_value(s.take(i)) <= digits_value(s),
    decreases s.len() - i,
{
    if i < s.len() {
        lemma_digits_value_monotone(s, i + 1);
        assert(s.take(i + 1).drop_last() =~= s.take(i));
    } else {
        assert(s.take(i) =~= s);
    }
}

/// Appending a digit to a value within `limit` keeps it within exactly when
/// the value is at most `(limit - d) / 10`.
pub proof fn lemma_digit_step(value: int, d: int, limit: int)
    requires
        0 <= value,
        0 <= d <= 9,
        limit >= 9,
    ensures
        value > (limit - d) / 10 ==> value * 10 + d > limit,
        value <= (limit - d) / 10 ==> value * 10 + d <= limit,
{
    assert(value > (limit - d) / 10 ==> value * 10 + d > limit) by (nonlinear_arith)
        requires
            0 <= d <= 9,
            limit >= 9,
    ;
    assert(value <= (limit - d) / 10 ==> value * 10 + d <= limit) by (nonlinear_arith)
        requires
            0 <= d <= 9,
            limit >= 9,
    ;
}

/// `str::parse::<u32>` on a character slice `v[start..end]`.
pub fn parse_u32(v: &Vec<char>, start: usize, end: usize) -> (res: Option<u32>)
    requires
        start <= end <= v@.len(),
    ensures
        res == parse_u32_spec(v@.subrange(start as int, end as int)),
{
    let ghost s = v@.subrange(start as int, end as int);
    let mut i = start;
    if i < end && v[i] == '+' {
        i += 1;
    }
    let ghost body = v@.subrange(i as int, end as int);
    assert(body =~= unsigned_body(s));
    if i == end {
        return None;
    }
    let mut value: u64 = 0;
    let mut j = i;
    while j < end
        invariant
            i <= j <= end <= v@.len(),
            body == v@.subrange(i as int, end as int),
            body == unsigned_body(s),
            s == v@.subrange(start as int, end as int),
            all_digits(body.take(j - i)),
            value == digits_value(body.take(j - i)),
            value <= u32::MAX,
        decreases end - j,
    {
        let c = v[j];
        assert(body[(j - i) as int] == c);
        if !('0' <= c && c <= '9') {
            assert(!all_digits(body));
            assert(parse_u32_spec(s) is None);
            return None;
        }
        let d = ((c as u32) - ('0' as u32)) as u64;
        assert(body.take(j + 1 - i).drop_last() =~= body.take(j - i));
        let next = value * 10 + d;
        if next > 0xFFFF_FFFF {
            proof {
                assert(digits_value(body.take(j + 1 - i)) == next);
                if all_digits(body) {
                    lemma_digits_value_monotone(body, j + 1 - i);
                }
                assert(parse_u32_spec(s) is None);
            }
            return None;
        }
        value = next;
        j += 1;
    }
    assert(body.take(j - i) =~= body);
    Some(value as u32)
}

/// The position of the first `x` in `s`, if any.
pub open spec fn first_x(s: Seq<char>) -> Option<int> {
    if exists|i: int| 0 <= i < s.len() && s[i] == 'x' {
        Some(choose|i: int| 0 <= i < s.len() && s[i] == 'x' && forall|j: int| 0 <= j < i ==> s[j] != 'x')
    } else {
        None
    }
}

/// `"WxH"` parsed as two `u32`s around the first `x`, both non-zero, reduced by their gcd.
pub open spec fn aspect_ratio_spec(dim: Seq<char>) -> Option<AspectRatio> {
    match first_x(dim) {
        None => None,
        Some(k) => match (parse_u32_spec(dim.take(k)), parse_u32_spec(dim.skip(k + 1))) {
            (Some(w), Some(h)) => if w == 0 || h == 0 {
                None
            } else {
                let g = spec_gcd(w as nat, h as nat);
                Some(AspectRatio { width: (w as nat / g) as u32, height: (h as nat / g) as u32 })
            },
            _ => None,
        },
    }
}

/// Parse a "WxH" dimension string into an AspectRatio with GCD reduction.
pub fn parse_aspect_ratio(dim: &str) -> (res: Option<AspectRatio>)
    ensures
        res == aspect_ratio_spec(dim@),
        res matches Some(r) ==> ({
            let k = first_x(dim@)->0;
            let w = parse_u32_spec(dim@.take(k))->0;
            let h = parse_u32_spec(dim@.skip(k + 1))->0;
            &&& w > 0 && h > 0
            &&& spec_gcd(r.width as nat, r.height as nat) == 1
            &&& r.width * h == r.height * w
        }),
{
    proof {
        if aspect_ratio_spec(dim@) is Some {
            parsed_aspect_ratio_is_reduced(dim@);
        }
    }
    let v = char_vec(dim);
    let mut k: usize = 0;
    while k < v.len() && v[k] != 'x'
        invariant
            k <= v@.len(),
            v@ == dim@,
            forall|j: int| 0 <= j < k ==> v@[j] != 'x',
        decreases v.len() - k,
    {
        k += 1;
    }
    if k == v.len() {
        assert(first_x(dim@) is None);
        return None;
    }
    assert(dim@[k as int] == 'x');
    let ghost kk = first_x(dim@)->0;
    assert(kk == k) by {
        if kk < k {
            assert(v@[kk] != 'x');
        } else if kk > k {
            assert(dim@[k as int] == 'x');
        }
    }
    assert(v@.subrange(0, k as int) =~= dim@.take(k as int));
    assert(v@.subrange(k + 1, v@.len() as int) =~= dim@.skip(k + 1));
    let w = match parse_u32(&v, 0, k) {
        Some(w) => w,
        None => return None,
    };
    let h = match parse_u32(&v, k + 1, v.len()) {
        Some(h) => h,
        None => return None,
    };
    if w == 0 || h == 0 {
        return None;
    }
    let g = gcd(w, h);
    proof {
        lemma_gcd_divides(w as nat, h as nat);
    }
    Some(AspectRatio { width: w / g, height: h / g })
}

// ---------------------------------------------------------------------------
// Timestamps
// ---------------------------------------------------------------------------

/// The RFC 3339 text (`YYYY-MM-DDTHH:MM:SSZ`) that chrono gives for a Unix
/// timestamp in UTC, when chrono can represent it.
pub uninterp spec fn rfc3339_utc_seconds(ts: i64) -> Option<Seq<char>>;

/// `chrono::DateTime::<Utc>::from_timestamp(ts, 0)` followed by
/// `to_rfc3339_opts(SecondsFormat::Secs, true)`: the UTC date-time of a Unix
/// timestamp in seconds, formatted with a `Z` suffix. chrono answers `None`
/// only outside its date range (about ±262,000 years); the contract promises
/// `Some` for the years 1 to 9999 and leaves the exact edges of that range
/// to the name.
#[verifier::external_body]
fn format_unix_seconds(ts: i64) -> (res: Option<String>)
    ensures
        res is Some <==> rfc3339_utc_seconds(ts) is Some,
        -62135596800 <= ts <= 253402300799 ==> res is Some,
        res matches Some(s) ==> rfc3339_utc_seconds(ts) == Some(s@),
{
    match chrono::DateTime::<chrono::Utc>::from_timestamp(ts, 0) {
        Some(dt) => Some(dt.to_rfc3339_opts(chrono::SecondsFormat::Secs, true)),
        None => None,
    }
}

/// The epoch in RFC 3339 form, used when a timestamp is out of range.
pub open spec fn epoch_text() -> Seq<char> {
    "1970-01-01T00:00:00Z"@
}

/// ISO 8601 text of a Unix timestamp, or the epoch when it is out of range.
pub open spec fn iso8601_of(ts: i64) -> Seq<char> {
    match rfc3339_utc_seconds(ts) {
        Some(s) => s,
        None => epoch_text(),
    }
}

/// Convert a Unix timestamp to ISO 8601 string.
pub fn unix_to_iso8601(ts: i64) -> (res: String)
    ensures
        res@ == iso8601_of(ts),
{
    match format_unix_seconds(ts) {
        Some(s) => s,
        None => "1970-01-01T00:00:00Z".to_owned(),
    }
}

// ---------------------------------------------------------------------------
// Record keys
// ---------------------------------------------------------------------------

/// Characters valid in an ATProto record key.
pub open spec fn is_rkey_char(c: char) -> bool {
    ||| is_ascii_alphanumeric(c)
    ||| c == '.' || c == '_' || c == '~' || c == ':' || c == '@' || c == '!' || c == '$'
    ||| c == '&' || c == '\'' || c == '(' || c == ')' || c == '*' || c == '+' || c == ','
    ||| c == ';' || c == '=' || c == '-'
}

/// A valid record key: non-empty, at most 512 bytes, only record-key characters.
pub open spec fn valid_rkey(s: Seq<char>) -> bool {
    &&& s.len() > 0
    &&& byte_len(s) <= 512
    &&& forall|i: int| 0 <= i < s.len() ==> is_rkey_char(#[trigger] s[i])
}

/// Characters valid in an ATProto rkey.
pub fn is_valid_rkey_char(c: char) -> (b: bool)
    ensures
        b == is_rkey_char(c),
{
    is_alphanumeric_ascii(c) || c == '.' || c == '_' || c == '~' || c == ':' || c == '@' || c
        == '!' || c == '$' || c == '&' || c == '\'' || c == '(' || c == ')' || c == '*' || c
        == '+' || c == ',' || c == ';' || c == '=' || c == '-'
}

/// Check if a string is a valid ATProto rkey.
pub fn is_valid_rkey(s: &str) -> (b: bool)
    ensures
        b == valid_rkey(s@),
{
    let v = char_vec(s);
    if v.len() == 0 {
        return false;
    }
    if utf8_byte_len(s) > 512 {
        return false;
    }
    let mut i: usize = 0;
    while i < v.len()
        invariant
            i <= v@.len(),
            v@ == s@,
            forall|j: int| 0 <= j < i ==> is_rkey_char(#[trigger] v@[j]),
        decreases v.len() - i,
    {
        if !is_valid_rkey_char(v[i]) {
            return false;
        }
        i += 1;
    }
    true
}

/// SHA-256 of a byte string.
pub uninterp spec fn spec_sha256(data: Seq<u8>) -> Seq<u8>;

/// `sha2::Sha256::digest`: the 32-byte SHA-256 digest of `data`.
#[verifier::external_body]
pub(crate) fn sha256_digest(data: &[u8]) -> (res: Vec<u8>)
    ensures
        res@ == spec_sha256(data@),
        res@.len() == 32,
{
    sha2::Sha256::digest(data).to_vec()
}

/// RFC 4648 base32 (alphabet `A-Z2-7`) without padding.
pub open spec fn spec_base32_nopad(data: Seq<u8>) -> Seq<char> {
    crate::encoding::base32_nopad_text(data)
}

/// A character of the RFC 4648 base32 alphabet.
pub open spec fn is_base32_char(c: char) -> bool {
    ('A' <= c && c <= 'Z') || ('2' <= c && c <= '7')
}

/// `data_encoding::BASE32_NOPAD.encode`: unpadded base32 with the symbols
/// `ABCDEFGHIJKLMNOPQRSTUVWXYZ234567`, one symbol per 5 bits, so
/// `ceil(8n/5)` symbols for `n` bytes. The crate may panic for inputs longer
/// than `usize::MAX / 512` bytes, which `requires` leaves out.
#[verifier::external_body]
pub(crate) fn base32_nopad_encode(data: &[u8]) -> (res: String)
    requires
        data@.len() <= 8_388_607,
    ensures
        res@ == spec_base32_nopad(data@),
        res@.len() == (8 * data@.len() + 4) / 5,
        forall|i: int| 0 <= i < res@.len() ==> is_base32_char(#[trigger] res@[i]),
{
    data_encoding::BASE32_NOPAD.encode(data)
}

/// Lower-case unpadded base32 of the SHA-256 of the UTF-8 bytes of `input`.
pub open spec fn base32_hash_spec(input: Seq<char>) -> Seq<char> {
    ascii_lower_seq(spec_base32_nopad(spec_sha256(vstd::utf8::encode_utf8(input))))
}

/// Base32 encode (lowercase, no padding) a SHA-256 hash of the input.
pub fn base32_hash(input: &str) -> (res: String)
    ensures
        res@ == base32_hash_spec(input@),
        valid_rkey(res@),
        res@.len() == 52,
{
    let bytes = input.as_bytes();
    let hash = sha256_digest(bytes);
    let encoded = base32_nopad_encode(hash.as_slice());
    let v = char_vec(encoded.as_str());
    let lower = to_ascii_lowercase(&v);
    let res = string_from_chars(&lower);
    proof {
        assert(res@.len() == 52);
        assert forall|i: int| 0 <= i < res@.len() implies is_rkey_char(#[trigger] res@[i]) by {
            assert(is_base32_char(v@[i]));
        }
        lemma_ascii_byte_len(res@);
    }
    res
}

/// An ASCII text has as many bytes as characters.
pub proof fn lemma_ascii_byte_len(s: Seq<char>)
    requires
        forall|i: int| 0 <= i < s.len() ==> (#[trigger] s[i] as u32) < 0x80,
    ensures
        byte_len(s) == s.len(),
    decreases s.len(),
{
    if s.len() > 0 {
        lemma_ascii_byte_len(s.drop_first());
        assert((s[0] as u32) < 0x80);
    } else {
        assert(vstd::utf8::encode_utf8(s) =~= Seq::<u8>::empty());
    }
}

/// The record key of an event: its `d` tag when that is a valid record key,
/// the hash of a non-empty invalid `d` tag, else the event id when valid,
/// else the hash of the event id.
pub open spec fn rkey_spec(tags: Seq<Seq<Seq<char>>>, id: Seq<char>) -> Seq<char> {
    match tag_value(tags, "d"@) {
        Some(d) if d.len() > 0 && valid_rkey(d) => d,
        Some(d) if d.len() > 0 => base32_hash_spec(d),
        _ => if id.len() > 0 && valid_rkey(id) {
            id
        } else {
            base32_hash_spec(id)
        },
    }
}

/// Derive an rkey for a Nostr event, using the `d` tag if it's a valid rkey,
/// otherwise falling back to a base32-encoded hash.
pub fn derive_rkey(event: &NostrEvent) -> (res: String)
    ensures
        res@ == rkey_spec(event.tags_view(), event.id@),
        valid_rkey(res@),
{
    if let Some(d_tag) = get_tag(event, "d") {
        let nonempty = !d_tag.as_str().is_empty();
        if nonempty && is_valid_rkey(d_tag.as_str()) {
            return d_tag;
        }
        if nonempty {
            return base32_hash(d_tag.as_str());
        }
    }
    if !event.id.as_str().is_empty() && is_valid_rkey(event.id.as_str()) {
        return event.id.clone();
    }
    base32_hash(event.id.as_str())
}

// ---------------------------------------------------------------------------
// Translation
// ---------------------------------------------------------------------------

/// The self-labels of an event: one per `content-warning` tag, or none.
pub open spec fn labels_match(labels: Option<SelfLabels>, tags: Seq<Seq<Seq<char>>>) -> bool {
    let cw = tag_values(tags, "content-warning"@);
    if cw.len() == 0 {
        labels is None
    } else {
        labels matches Some(l) && l.type_@ == "com.atproto.label.defs#selfLabels"@
            && l.values@.len() == cw.len() && forall|i: int|
            0 <= i < cw.len() ==> (#[trigger] l.values@[i]).val@ == cw[i]
    }
}

/// The video embed of an event: the uploaded blob, the `alt` tag and the
/// `imeta` `dim` aspect ratio.
pub open spec fn embed_match(embed: Option<VideoEmbed>, event: NostrEvent, blob: BlobRef) -> bool {
    embed matches Some(e) && {
        &&& e.type_@ == "app.bsky.embed.video"@
        &&& e.video.cid@ == blob.cid@ && e.video.mime_type@ == blob.mime_type@ && e.video.size
            == blob.size
        &&& (e.alt is Some <==> tag_value(event.tags_view(), "alt"@) is Some)
        &&& (e.alt matches Some(a) ==> tag_value(event.tags_view(), "alt"@) == Some(a@))
        &&& e.aspect_ratio == match imeta_value(event.tags_view(), "dim"@) {
            Some(d) => aspect_ratio_spec(d),
            None => None,
        }
    }
}

/// The post record built from an event and its uploaded video blob.
pub open spec fn translated_post(post: AtProtoPost, event: NostrEvent, blob: BlobRef) -> bool {
    &&& post.type_@ == "app.bsky.feed.post"@
    &&& post.text@ == post_text(event)
    &&& hashtag_facets_of(post.facets@, post.text@)
    &&& post.created_at@ == iso8601_of(event.created_at)
    &&& post.langs matches Some(l) && strings_view(l@) == seq!["en"@]
    &&& embed_match(post.embed, event, blob)
    &&& labels_match(post.labels, event.tags_view())
}

/// Labels for the event's `content-warning` tags.
fn build_labels(event: &NostrEvent) -> (res: Option<SelfLabels>)
    ensures
        labels_match(res, event.tags_view()),
{
    let cw = get_tags(event, "content-warning");
    if cw.len() == 0 {
        return None;
    }
    let mut values: Vec<SelfLabelValue> = Vec::new();
    let mut i: usize = 0;
    while i < cw.len()
        invariant
            i <= cw@.len(),
            values@.len() == i,
            forall|j: int| 0 <= j < i ==> (#[trigger] values@[j]).val@ == cw@[j]@,
        decreases cw.len() - i,
    {
        values.push(SelfLabelValue { val: cw[i].clone() });
        i += 1;
    }
    let ghost cwv = tag_values(event.tags_view(), "content-warning"@);
    assert(strings_view(cw@) == cwv);
    assert forall|j: int| 0 <= j < cwv.len() implies (#[trigger] values@[j]).val@ == cwv[j] by {
        assert(strings_view(cw@)[j] == cw@[j]@);
    }
    Some(SelfLabels { type_: "com.atproto.label.defs#selfLabels".to_owned(), values })
}

/// Translate a NIP-71 Nostr event into an ATProto post record.
pub fn translate_nip71_to_post(event: &NostrEvent, blob_ref: &BlobRef) -> (res: Result<
    AtProtoPost,
    TranslateError,
>)
    ensures
        res matches Ok(post) && translated_post(post, *event, *blob_ref),
        full_post_text(event.tags_view(), event.content@).len() <= MAX_POST_GRAPHEMES ==> (res matches Ok(post)
            && post.text@ == full_post_text(event.tags_view(), event.content@)),
{
    let (text, facets) = build_post_text(event);
    let created_at = unix_to_iso8601(event.created_at);
    let alt = get_tag(event, "alt");
    let aspect_ratio = match get_imeta_field(event, "dim") {
        Some(d) => parse_aspect_ratio(d.as_str()),
        None => None,
    };
    let embed = Some(
        VideoEmbed {
            type_: "app.bsky.embed.video".to_owned(),
            video: blob_ref.clone_ref(),
            alt,
            aspect_ratio,
        },
    );
    let labels = build_labels(event);
    let mut langs: Vec<String> = Vec::new();
    langs.push("en".to_owned());
    assert(strings_view(langs@) =~= seq!["en"@]);
    Ok(
        AtProtoPost {
            type_: "app.bsky.feed.post".to_owned(),
            text,
            created_at,
            facets,
            langs: Some(langs),
            embed,
            labels,
        },
    )
}

} // verus!
