//! Text encodings of byte strings: RFC 4648 base64 and base32, and
//! Bitcoin base58.

use vstd::prelude::*;

verus! {

/// The base64 digit of a 6-bit value: `A-Z`, `a-z`, `0-9`, then `+` and
/// `/`, or `-` and `_` in the URL-safe alphabet.
pub open spec fn base64_digit(v: int, url_safe: bool) -> char {
    if v < 26 {
        (v + 65) as char
    } else if v < 52 {
        (v - 26 + 97) as char
    } else if v < 62 {
        (v - 52 + 48) as char
    } else if v == 62 {
        if url_safe {
            '-'
        } else {
            '+'
        }
    } else if url_safe {
        '_'
    } else {
        '/'
    }
}

/// Base64 text: each 3 bytes become 4 digits; a final 1 or 2 bytes become 2
/// or 3 digits, followed by `==` or `=` when `padded`.
pub open spec fn base64_text(data: Seq<u8>, url_safe: bool, padded: bool) -> Seq<char>
    decreases data.len(),
{
    if data.len() == 0 {
        Seq::empty()
    } else if data.len() == 1 {
        let b0 = data[0] as int;
        seq![base64_digit(b0 / 4, url_safe), base64_digit((b0 % 4) * 16, url_safe)] + if padded {
            seq!['=', '=']
        } else {
            Seq::empty()
        }
    } else if data.len() == 2 {
        let b0 = data[0] as int;
        let b1 = data[1] as int;
        seq![
            base64_digit(b0 / 4, url_safe),
            base64_digit((b0 % 4) * 16 + b1 / 16, url_safe),
            base64_digit((b1 % 16) * 4, url_safe),
        ] + if padded {
            seq!['=']
        } else {
            Seq::empty()
        }
    } else {
        let b0 = data[0] as int;
        let b1 = data[1] as int;
        let b2 = data[2] as int;
        seq![
            base64_digit(b0 / 4, url_safe),
            base64_digit((b0 % 4) * 16 + b1 / 16, url_safe),
            base64_digit((b1 % 16) * 4 + b2 / 64, url_safe),
            base64_digit(b2 % 64, url_safe),
        ] + base64_text(data.skip(3), url_safe, padded)
    }
}

/// The base32 digit of a 5-bit value: `A-Z` then `2-7`.
pub open spec fn base32_digit(v: int) -> char {
    if v < 26 {
        (v + 65) as char
    } else {
        (v - 26 + 50) as char
    }
}

/// Byte `j` of a group, zero past its end.
pub open spec fn group_byte(group: Seq<u8>, j: int) -> int {
    if j < group.len() {
        group[j] as int
    } else {
        0
    }
}

/// The 40-bit big-endian value of a group of at most 5 bytes, zero-filled.
pub open spec fn group_value(group: Seq<u8>) -> int {
    group_byte(group, 0) * 0x1_0000_0000 + group_byte(group, 1) * 0x100_0000 + group_byte(group, 2) * 0x1_0000
        + group_byte(group, 3) * 0x100 + group_byte(group, 4)
}

/// How many base32 digits an unpadded group of `k` bytes gives.
pub open spec fn base32_digit_count(k: int) -> int {
    if k == 1 {
        2
    } else if k == 2 {
        4
    } else if k == 3 {
        5
    } else if k == 4 {
        7
    } else {
        8
    }
}

/// The 5-bit value of digit `i` (from the most significant) of a group.
pub open spec fn group_digit(group: Seq<u8>, i: int) -> int {
    (group_value(group) / pow32_from(7 - i)) % 32
}

/// `32^e` for `0 <= e <= 7`.
pub open spec fn pow32_from(e: int) -> int {
    if e <= 0 {
        1
    } else if e == 1 {
        32
    } else if e == 2 {
        1024
    } else if e == 3 {
        32768
    } else if e == 4 {
        1048576
    } else if e == 5 {
        33554432
    } else if e == 6 {
        1073741824
    } else {
        34359738368
    }
}

/// Unpadded base32 text: each 5 bytes become 8 digits; a final 1 to 4 bytes
/// become 2, 4, 5 or 7 digits.
pub open spec fn base32_nopad_text(data: Seq<u8>) -> Seq<char>
    decreases data.len(),
{
    if data.len() == 0 {
        Seq::empty()
    } else {
        let group = data.take(if data.len() < 5 { data.len() as int } else { 5 });
        Seq::new(base32_digit_count(group.len() as int) as nat, |i: int| base32_digit(group_digit(group, i)))
            + if data.len() <= 5 {
            Seq::empty()
        } else {
            base32_nopad_text(data.skip(5))
        }
    }
}

/// The big-endian value of a byte string.
pub open spec fn be_value(data: Seq<u8>) -> nat
    decreases data.len(),
{
    if data.len() == 0 {
        0
    } else {
        be_value(data.drop_last()) * 256 + data.last() as nat
    }
}

/// The Bitcoin base58 digit of a value below 58:
/// `123456789ABCDEFGHJKLMNPQRSTUVWXYZabcdefghijkmnopqrstuvwxyz`.
pub open spec fn base58_digit(v: int) -> char {
    if v < 9 {
        (v + 49) as char
    } else if v < 17 {
        (v - 9 + 65) as char
    } else if v < 22 {
        (v - 17 + 74) as char
    } else if v < 33 {
        (v - 22 + 80) as char
    } else if v < 44 {
        (v - 33 + 97) as char
    } else {
        (v - 44 + 109) as char
    }
}

/// The base58 digits of a number, most significant first; none for zero.
pub open spec fn base58_digits(n: nat) -> Seq<char>
    decreases n,
{
    if n == 0 {
        Seq::empty()
    } else {
        base58_digits(n / 58).push(base58_digit((n % 58) as int))
    }
}

/// How many zero bytes a byte string starts with.
pub open spec fn leading_zero_bytes(data: Seq<u8>) -> nat
    decreases data.len(),
{
    if data.len() > 0 && data[0] == 0 {
        1 + leading_zero_bytes(data.drop_first())
    } else {
        0
    }
}

/// Bitcoin base58 text: a `1` for each leading zero byte, then the base58
/// digits of the big-endian value.
pub open spec fn base58_text(data: Seq<u8>) -> Seq<char> {
    Seq::new(leading_zero_bytes(data), |i: int| '1') + base58_digits(be_value(data))
}

/// Strict unpadded URL-safe base64 decoding: the bytes whose encoding is the
/// text (read as ASCII), if there are any.
pub open spec fn base64url_nopad_decoding(text: Seq<u8>) -> Option<Seq<u8>> {
    let t = text.map_values(|c: u8| c as char);
    if exists|b: Seq<u8>| #[trigger] base64_text(b, true, false) == t {
        Some(choose|b: Seq<u8>| #[trigger] base64_text(b, true, false) == t)
    } else {
        None
    }
}

} // verus!
