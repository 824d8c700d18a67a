//! Character-level helpers shared by the text, rkey, handle and config logic.
//!
//! Text is handled as `String`/`&str`, whose view is the `Seq<char>` of its
//! characters; UTF-8 byte lengths are stated with vstd's `encode_utf8`.

use vstd::prelude::*;
use vstd::utf8::*;

verus! {

broadcast use vstd::seq_lib::group_seq_properties;

/// Number of UTF-8 bytes that encode the character `c`.
pub open spec fn char_width(c: char) -> nat {
    encode_scalar(c as u32).len()
}

/// Number of UTF-8 bytes that encode the character sequence `s`.
pub open spec fn byte_len(s: Seq<char>) -> nat {
    encode_utf8(s).len()
}

/// The Unicode `White_Space` property, which is what `char::is_whitespace` tests.
pub open spec fn is_white_space(c: char) -> bool {
    let u = c as u32;
    ||| 0x09 <= u <= 0x0D
    ||| u == 0x20
    ||| u == 0x85
    ||| u == 0xA0
    ||| u == 0x1680
    ||| 0x2000 <= u <= 0x200A
    ||| u == 0x2028
    ||| u == 0x2029
    ||| u == 0x202F
    ||| u == 0x205F
    ||| u == 0x3000
}

/// ASCII letters and digits.
pub open spec fn is_ascii_alphanumeric(c: char) -> bool {
    ||| ('a' <= c && c <= 'z')
    ||| ('A' <= c && c <= 'Z')
    ||| ('0' <= c && c <= '9')
}

/// ASCII lower-casing of a single character.
pub open spec fn ascii_lower(c: char) -> char {
    if 'A' <= c && c <= 'Z' {
        ((c as u32) + 32) as char
    } else {
        c
    }
}

/// ASCII lower-casing of every character.
pub open spec fn ascii_lower_seq(s: Seq<char>) -> Seq<char> {
    Seq::new(s.len(), |i: int| ascii_lower(s[i]))
}

/// `s` with its leading and trailing white space removed (as `str::trim`).
pub open spec fn trim_seq(s: Seq<char>) -> Seq<char> {
    if leading_ws(s) < s.len() {
        s.subrange(leading_ws(s) as int, trailing_end(s) as int)
    } else {
        Seq::empty()
    }
}

/// Index of the first non-white-space character of `s`, or `s.len()`.
pub open spec fn leading_ws(s: Seq<char>) -> nat
    decreases s.len(),
{
    if s.len() == 0 {
        0
    } else if is_white_space(s[0]) {
        1 + leading_ws(s.drop_first())
    } else {
        0
    }
}

/// One past the index of the last non-white-space character of `s`, or `0`.
pub open spec fn trailing_end(s: Seq<char>) -> nat
    decreases s.len(),
{
    if s.len() == 0 {
        0
    } else if is_white_space(s.last()) {
        trailing_end(s.drop_last())
    } else {
        s.len()
    }
}

/// Exact UTF-8 width of one character.
pub fn char_utf8_width(c: char) -> (w: usize)
    ensures
        w == char_width(c),
        1 <= w <= 4,
{
    proof {
        char_is_scalar(c);
    }
    let u = c as u32;
    if u < 0x80 {
        1
    } else if u < 0x800 {
        2
    } else if u < 0x10000 {
        3
    } else {
        4
    }
}

/// `char::is_whitespace`, as the Unicode `White_Space` list.
pub fn is_whitespace(c: char) -> (b: bool)
    ensures
        b == is_white_space(c),
{
    let u = c as u32;
    (0x09 <= u && u <= 0x0D) || u == 0x20 || u == 0x85 || u == 0xA0 || u == 0x1680 || (0x2000
        <= u && u <= 0x200A) || u == 0x2028 || u == 0x2029 || u == 0x202F || u == 0x205F || u
        == 0x3000
}

/// ASCII letter or digit test.
pub fn is_alphanumeric_ascii(c: char) -> (b: bool)
    ensures
        b == is_ascii_alphanumeric(c),
{
    ('a' <= c && c <= 'z') || ('A' <= c && c <= 'Z') || ('0' <= c && c <= '9')
}

/// The byte length of a sequence grows by the width of each appended character.
pub proof fn lemma_byte_len_push(s: Seq<char>, c: char)
    ensures
        byte_len(s.push(c)) == byte_len(s) + char_width(c),
    decreases s.len(),
{
    if s.len() == 0 {
        assert(s.push(c).drop_first() =~= Seq::<char>::empty());
        assert(encode_utf8(Seq::<char>::empty()) =~= Seq::<u8>::empty());
    } else {
        lemma_byte_len_push(s.drop_first(), c);
        assert(s.push(c).drop_first() =~= s.drop_first().push(c));
    }
}

/// Byte length of a concatenation.
pub proof fn lemma_byte_len_concat(a: Seq<char>, b: Seq<char>)
    ensures
        byte_len(a + b) == byte_len(a) + byte_len(b),
    decreases b.len(),
{
    if b.len() == 0 {
        assert(a + b =~= a);
        assert(encode_utf8(b) =~= Seq::<u8>::empty());
    } else {
        lemma_byte_len_concat(a, b.drop_last());
        assert(a + b =~= (a + b.drop_last()).push(b.last()));
        assert(b =~= b.drop_last().push(b.last()));
        lemma_byte_len_push(a + b.drop_last(), b.last());
        lemma_byte_len_push(b.drop_last(), b.last());
    }
}

/// The characters of `s`, in order.
pub fn char_vec(s: &str) -> (res: Vec<char>)
    ensures
        res@ == s@,
{
    let mut res: Vec<char> = Vec::new();
    for c in it: s.chars()
        invariant
            res@ == it.seq().take(it.index() as int),
            it.seq() == s@,
    {
        res.push(c);
    }
    res
}

/// Appends one character to a `String` (`String::push`).
#[verifier::external_body]
pub(crate) fn push_char(s: &mut String, c: char)
    ensures
        final(s)@ == old(s)@.push(c),
{
    s.push(c);
}

/// A `String` holding the characters `chars[start..end]`.
pub fn string_from_range(chars: &Vec<char>, start: usize, end: usize) -> (res: String)
    requires
        start <= end <= chars@.len(),
    ensures
        res@ == chars@.subrange(start as int, end as int),
{
    let mut res = String::new();
    let mut i = start;
    while i < end
        invariant
            start <= i <= end <= chars@.len(),
            res@ == chars@.subrange(start as int, i as int),
        decreases end - i,
    {
        push_char(&mut res, chars[i]);
        i += 1;
    }
    res
}

/// A `String` holding all the characters of `chars`.
pub fn string_from_chars(chars: &Vec<char>) -> (res: String)
    ensures
        res@ == chars@,
{
    let r = string_from_range(chars, 0, chars.len());
    assert(chars@.subrange(0, chars@.len() as int) =~= chars@);
    r
}

/// Appends all characters of `t` to `s`.
pub fn push_all(s: &mut String, t: &str)
    ensures
        final(s)@ == old(s)@ + t@,
{
    let v = char_vec(t);
    let mut i: usize = 0;
    while i < v.len()
        invariant
            i <= v@.len(),
            v@ == t@,
            s@ == old(s)@ + t@.take(i as int),
        decreases v.len() - i,
    {
        push_char(s, v[i]);
        i += 1;
        assert(t@.take(i as int) =~= t@.take((i - 1) as int).push(v@[i - 1]));
    }
    assert(t@.take(i as int) =~= t@);
}

/// Character-wise equality of two strings.
pub fn str_equal(a: &str, b: &str) -> (res: bool)
    ensures
        res == (a@ == b@),
{
    let va = char_vec(a);
    let vb = char_vec(b);
    if va.len() != vb.len() {
        return false;
    }
    let mut i: usize = 0;
    while i < va.len()
        invariant
            i <= va@.len() == vb@.len(),
            va@ == a@,
            vb@ == b@,
            forall|j: int| 0 <= j < i ==> va@[j] == vb@[j],
        decreases va.len() - i,
    {
        if va[i] != vb[i] {
            return false;
        }
        i += 1;
    }
    assert(va@ =~= vb@);
    true
}

/// Whether `s` starts with `prefix`.
pub fn starts_with(s: &str, prefix: &str) -> (res: bool)
    ensures
        res == (prefix@.len() <= s@.len() && s@.take(prefix@.len() as int) == prefix@),
{
    let vs = char_vec(s);
    let vp = char_vec(prefix);
    if vp.len() > vs.len() {
        return false;
    }
    let mut i: usize = 0;
    while i < vp.len()
        invariant
            i <= vp@.len() <= vs@.len(),
            vs@ == s@,
            vp@ == prefix@,
            forall|j: int| 0 <= j < i ==> vs@[j] == vp@[j],
        decreases vp.len() - i,
    {
        if vs[i] != vp[i] {
            return false;
        }
        i += 1;
    }
    assert(s@.take(prefix@.len() as int) =~= prefix@);
    true
}

/// Index of the first non-white-space character of `v[from..]`, as an index into `v`.
fn skip_ws_forward(v: &Vec<char>) -> (i: usize)
    ensures
        i == leading_ws(v@),
        i <= v@.len(),
{
    let mut i: usize = 0;
    while i < v.len() && is_whitespace(v[i])
        invariant
            i <= v@.len(),
            leading_ws(v@) == i + leading_ws(v@.skip(i as int)),
        decreases v.len() - i,
    {
        assert(v@.skip(i as int).drop_first() =~= v@.skip(i + 1));
        i += 1;
    }
    if i < v.len() {
        assert(v@.skip(i as int)[0] == v@[i as int]);
    } else {
        assert(v@.skip(i as int) =~= Seq::<char>::empty());
    }
    i
}

/// One past the last non-white-space character of `v`.
fn skip_ws_backward(v: &Vec<char>) -> (j: usize)
    ensures
        j == trailing_end(v@),
        j <= v@.len(),
{
    let mut j: usize = v.len();
    while j > 0 && is_whitespace(v[j - 1])
        invariant
            j <= v@.len(),
            trailing_end(v@) == trailing_end(v@.take(j as int)),
        decreases j,
    {
        assert(v@.take(j as int).drop_last() =~= v@.take(j - 1));
        j -= 1;
    }
    if j == 0 {
        assert(v@.take(0) =~= Seq::<char>::empty());
    }
    j
}

/// Proves that the trimmed range is well ordered.
proof fn lemma_trim_bounds(s: Seq<char>)
    ensures
        leading_ws(s) <= s.len(),
        trailing_end(s) <= s.len(),
        leading_ws(s) == s.len() ==> trailing_end(s) == 0,
        leading_ws(s) < s.len() ==> leading_ws(s) < trailing_end(s),
    decreases s.len(),
{
    if s.len() > 0 {
        lemma_trim_bounds(s.drop_first());
        lemma_trim_bounds(s.drop_last());
        if is_white_space(s[0]) {
            if s.len() == 1 {
                assert(s.drop_last() =~= Seq::<char>::empty());
            } else {
                lemma_trailing_drop_first(s);
            }
        }
    }
}

/// Dropping a leading white-space character shifts the trailing end by one.
proof fn lemma_trailing_drop_first(s: Seq<char>)
    requires
        s.len() > 1,
        is_white_space(s[0]),
    ensures
        trailing_end(s) == if trailing_end(s.drop_first()) == 0 {
            0
        } else {
            trailing_end(s.drop_first()) + 1
        },
    decreases s.len(),
{
    assert(s.drop_first().last() == s.last());
    if is_white_space(s.last()) {
        if s.len() > 2 {
            assert(s.drop_last().drop_first() =~= s.drop_first().drop_last());
            lemma_trailing_drop_first(s.drop_last());
        } else {
            let a = s.drop_last();
            let b = s.drop_first();
            assert(a.drop_last() =~= Seq::<char>::empty());
            assert(b.drop_last() =~= Seq::<char>::empty());
            assert(a.last() == s[0]);
            assert(trailing_end(a) == trailing_end(a.drop_last()));
            assert(trailing_end(b) == trailing_end(b.drop_last()));
        }
    }
}

/// `str::trim`: the characters between the first and last non-white-space character.
pub fn trim_chars(v: &Vec<char>) -> (res: Vec<char>)
    ensures
        res@ == trim_seq(v@),
{
    proof {
        lemma_trim_bounds(v@);
    }
    let i = skip_ws_forward(v);
    let j = skip_ws_backward(v);
    let mut res: Vec<char> = Vec::new();
    if i >= j {
        assert(trim_seq(v@) =~= Seq::<char>::empty());
        return res;
    }
    let mut k = i;
    while k < j
        invariant
            i <= k <= j <= v@.len(),
            res@ == v@.subrange(i as int, k as int),
        decreases j - k,
    {
        res.push(v[k]);
        k += 1;
    }
    res
}

/// ASCII lower-casing of every character.
pub fn to_ascii_lowercase(v: &Vec<char>) -> (res: Vec<char>)
    ensures
        res@ == ascii_lower_seq(v@),
{
    let mut res: Vec<char> = Vec::new();
    let mut i: usize = 0;
    while i < v.len()
        invariant
            i <= v@.len(),
            res@ == ascii_lower_seq(v@.take(i as int)),
        decreases v.len() - i,
    {
        let c = v[i];
        let l = if 'A' <= c && c <= 'Z' {
            ((c as u8) + 32) as char
        } else {
            c
        };
        res.push(l);
        i += 1;
        assert(ascii_lower_seq(v@.take(i as int)) =~= ascii_lower_seq(v@.take((i - 1) as int)).push(
            ascii_lower(v@[i - 1]),
        ));
    }
    assert(v@.take(i as int) =~= v@);
    res
}


/// The decimal digit character for a value below 10.
pub open spec fn digit_char(d: nat) -> char {
    (48 + d) as char
}

/// Decimal text of a natural number, without leading zeros.
pub open spec fn decimal_text(n: nat) -> Seq<char>
    decreases n,
{
    if n < 10 {
        seq![digit_char(n)]
    } else {
        decimal_text(n / 10).push(digit_char(n % 10))
    }
}

/// Decimal text of `n` (as `u64::to_string`).
pub fn u64_to_decimal(n: u64) -> (s: String)
    ensures
        s@ == decimal_text(n as nat),
    decreases n,
{
    if n < 10 {
        let mut s = String::new();
        let c = ((48u8 + n as u8) as char);
        assert(c == digit_char(n as nat));
        push_char(&mut s, c);
        assert(s@ =~= seq![digit_char(n as nat)]);
        s
    } else {
        let mut s = u64_to_decimal(n / 10);
        let d = n % 10;
        let c = ((48u8 + d as u8) as char);
        assert(c == digit_char(d as nat));
        push_char(&mut s, c);
        s
    }
}


/// Whether `s` ends with `suffix`.
pub fn ends_with(s: &str, suffix: &str) -> (res: bool)
    ensures
        res == (suffix@.len() <= s@.len() && s@.skip(s@.len() - suffix@.len()) == suffix@),
{
    let vs = char_vec(s);
    let vp = char_vec(suffix);
    if vp.len() > vs.len() {
        return false;
    }
    let n = vs.len();
    let off = n - vp.len();
    let mut i: usize = 0;
    while i < vp.len()
        invariant
            i <= vp@.len() <= vs@.len(),
            n == vs@.len(),
            off == vs@.len() - vp@.len(),
            off + vp@.len() == vs@.len(),
            vs@ == s@,
            vp@ == suffix@,
            forall|j: int| 0 <= j < i ==> vs@[off + j] == vp@[j],
        decreases vp.len() - i,
    {
        if vs[off + i] != vp[i] {
            assert(s@.skip(s@.len() - suffix@.len())[i as int] != suffix@[i as int]);
            return false;
        }
        i += 1;
    }
    assert(s@.skip(s@.len() - suffix@.len()) =~= suffix@);
    true
}

} // verus!
