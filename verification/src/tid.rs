//! ATProto TID generation for durable, caller-supplied record keys.
//!
//! A TID is 13 characters of the sortable base32 alphabet: 11 for a
//! microsecond timestamp (at most 53 bits) and 2 for a 10-bit clock id. The
//! timestamps a clock hands out strictly increase, so its TIDs sort in
//! creation order.

use vstd::prelude::*;
use secp256k1::rand::RngCore;
use crate::chars::push_char;

verus! {

broadcast use vstd::seq_lib::group_seq_properties;

/// The sortable base32 alphabet, in ascending character order.
pub const SORTABLE_BASE32: &'static str = "234567abcdefghijklmnopqrstuvwxyz";

/// Largest timestamp that fits the 53 bits of a TID.
pub const MAX_TID_TIMESTAMP: u64 = 9007199254740991;

/// The symbol for a 5-bit digit `d`.
pub open spec fn base32_symbol(d: nat) -> char {
    if d < 6 {
        ((('2' as u32) + d) as u32) as char
    } else {
        ((('a' as u32) + (d - 6)) as u32) as char
    }
}

/// `32^w`.
pub open spec fn pow32(w: nat) -> nat
    decreases w,
{
    if w == 0 {
        1
    } else {
        32 * pow32((w - 1) as nat)
    }
}

/// `value` written with exactly `width` sortable-base32 digits, most significant first.
pub open spec fn fixed_base32(value: nat, width: nat) -> Seq<char>
    decreases width,
{
    if width == 0 {
        Seq::empty()
    } else {
        fixed_base32(value / 32, (width - 1) as nat).push(base32_symbol(value % 32))
    }
}

/// The TID for a timestamp and clock id.
pub open spec fn tid_text(timestamp: nat, clock_id: nat) -> Seq<char> {
    fixed_base32(timestamp, 11) + fixed_base32(clock_id, 2)
}

/// Strict lexicographic order on character sequences (as `String` compares).
pub open spec fn lex_lt(a: Seq<char>, b: Seq<char>) -> bool {
    exists|i: int|
        0 <= i <= a.len() && i <= b.len() && a.take(i) == b.take(i) && ((i == a.len() && i
            < b.len()) || (i < a.len() && i < b.len() && (a[i] as u32) < (b[i] as u32)))
}

/// The symbol of one digit (`SORTABLE_BASE32[d]`).
fn symbol(d: u64) -> (c: char)
    requires
        d < 32,
    ensures
        c == base32_symbol(d as nat),
{
    if d < 6 {
        let b: u8 = 0x32u8 + (d as u8);
        assert((b as char) == base32_symbol(d as nat));
        b as char
    } else {
        let b: u8 = 0x61u8 + ((d - 6) as u8);
        assert((b as char) == base32_symbol(d as nat));
        b as char
    }
}

/// Digits are written left to right from the most significant one.
proof fn lemma_fixed_len(value: nat, width: nat)
    ensures
        fixed_base32(value, width).len() == width,
    decreases width,
{
    if width > 0 {
        lemma_fixed_len(value / 32, (width - 1) as nat);
    }
}

/// Append `value` as exactly `width` sortable-base32 digits. The value must
/// fit in that many digits.
pub fn encode_fixed_base32(value: u64, width: usize, output: &mut String)
    requires
        width <= 13,
        (value as nat) < pow32(width as nat),
    ensures
        final(output)@ == old(output)@ + fixed_base32(value as nat, width as nat),
{
    let mut digits: Vec<char> = Vec::new();
    let mut v = value;
    assert(pow32(0) == 1);
    let mut k: usize = 0;
    // digits[j] is the digit of weight 32^j
    while k < width
        invariant
            k <= width <= 13,
            digits@.len() == k,
            v as nat == (value as nat) / pow32(k as nat),
            forall|j: int|
                0 <= j < k ==> #[trigger] digits@[j] == base32_symbol(
                    ((value as nat) / pow32(j as nat)) % 32,
                ),
        decreases width - k,
    {
        let d = v & 0x1f;
        proof {
            assert(v & 0x1f == v % 32) by (bit_vector);
        }
        digits.push(symbol(d));
        let nv = v >> 5;
        proof {
            assert(v >> 5 == v / 32) by (bit_vector);
            lemma_div_pow32_succ(value as nat, k as nat);
        }
        v = nv;
        k += 1;
    }
    let ghost before = output@;
    let mut j = width;
    while j > 0
        invariant
            j <= width <= 13,
            digits@.len() == width,
            forall|i: int|
                0 <= i < width ==> #[trigger] digits@[i] == base32_symbol(
                    ((value as nat) / pow32(i as nat)) % 32,
                ),
            output@ == before + fixed_base32(
                (value as nat) / pow32(j as nat),
                (width - j) as nat,
            ),
        decreases j,
    {
        j -= 1;
        push_char(output, digits[j]);
        proof {
            lemma_fixed_step(value as nat, j as nat, width as nat);
        }
    }
    proof {
        assert(pow32(0) == 1);
        assert((value as nat) / pow32(0) == value as nat);
    }
}

/// Dividing by one more power of 32.
proof fn lemma_div_pow32_succ(x: nat, k: nat)
    ensures
        x / pow32(k + 1) == (x / pow32(k)) / 32,
{
    lemma_pow32_pos(k);
    vstd::arithmetic::div_mod::lemma_div_denominator(x as int, pow32(k) as int, 32);
    assert(pow32(k + 1) == 32 * pow32(k));
    assert(pow32(k) * 32 == 32 * pow32(k)) by (nonlinear_arith);
}

/// Powers of 32 are positive.
proof fn lemma_pow32_pos(k: nat)
    ensures
        pow32(k) > 0,
    decreases k,
{
    if k > 0 {
        lemma_pow32_pos((k - 1) as nat);
    }
}

/// One unfolding of `fixed_base32`.
proof fn lemma_fixed_unfold(a: nat, n: nat)
    requires
        n > 0,
    ensures
        fixed_base32(a, n) == fixed_base32(a / 32, (n - 1) as nat).push(base32_symbol(a % 32)),
{
}

/// Writing one more digit on the right extends the fixed-width encoding.
proof fn lemma_fixed_step(x: nat, j: nat, width: nat)
    requires
        j < width,
    ensures
        fixed_base32(x / pow32(j), (width - j) as nat) == fixed_base32(
            x / pow32(j + 1),
            (width - j - 1) as nat,
        ).push(base32_symbol((x / pow32(j)) % 32)),
{
    lemma_div_pow32_succ(x, j);
    let a = x / pow32(j);
    let n = (width - j) as nat;
    assert(n > 0);
    assert((n - 1) as nat == (width - j - 1) as nat);
    lemma_fixed_unfold(a, n);
}


// ---------------------------------------------------------------------------
// Monotonic clock
// ---------------------------------------------------------------------------

/// Reserve the next timestamp after `last`: `now`, unless that would not be
/// strictly after the previously reserved one (then one past it, saturating).
pub open spec fn next_timestamp(last: u64, now: u64) -> u64 {
    let bumped = if last == u64::MAX {
        u64::MAX
    } else {
        (last + 1) as u64
    };
    if now > bumped {
        now
    } else {
        bumped
    }
}

/// Reserve a timestamp strictly after the last reserved one (saturating at
/// `u64::MAX`) and at least `now`, and remember it.
pub fn reserve_monotonic_timestamp(last: &mut u64, now: u64) -> (next: u64)
    ensures
        next == next_timestamp(*old(last), now),
        *final(last) == next,
        next >= now,
        *old(last) < u64::MAX ==> next > *old(last),
{
    let bumped = last.saturating_add(1);
    let next = if now > bumped {
        now
    } else {
        bumped
    };
    *last = next;
    next
}

/// Why a TID could not be issued.
#[derive(Debug, Clone, Copy, PartialEq, Eq, Structural)]
pub enum TidError {
    /// The system clock reads before the Unix epoch.
    ClockBeforeEpoch,
    /// The microsecond timestamp exceeds the 53 bits of a TID.
    TimestampOutOfRange,
}

/// TID issuing state: the last reserved timestamp and a 10-bit clock id.
pub struct TidClock {
    pub last_timestamp_micros: u64,
    pub clock_id: u16,
}

impl TidClock {
    /// Well-formed: the clock id fits in 10 bits.
    pub open spec fn wf(&self) -> bool {
        self.clock_id < 1024
    }

    /// A clock with the given id (taken modulo 1024) that has issued nothing.
    pub fn with_clock_id(raw: u32) -> (c: TidClock)
        ensures
            c.wf(),
            c.last_timestamp_micros == 0,
            c.clock_id as u32 == raw & 0x03ff,
    {
        let id = raw & 0x03ff;
        assert(raw & 0x03ff < 1024) by (bit_vector);
        TidClock { last_timestamp_micros: 0, clock_id: id as u16 }
    }

    /// A clock with a random clock id.
    pub fn new() -> (c: TidClock)
        ensures
            c.wf(),
            c.last_timestamp_micros == 0,
    {
        TidClock::with_clock_id(random_u32())
    }

    /// Issue a TID for `now_micros`: reserve the next timestamp and encode it
    /// with the clock id.
    pub fn tid_at(&mut self, now_micros: u64) -> (res: Result<String, TidError>)
        requires
            old(self).wf(),
        ensures
            final(self).wf(),
            final(self).clock_id == old(self).clock_id,
            final(self).last_timestamp_micros == next_timestamp(
                old(self).last_timestamp_micros,
                now_micros,
            ),
            res is Ok <==> final(self).last_timestamp_micros <= MAX_TID_TIMESTAMP,
            res matches Err(e) ==> e is TimestampOutOfRange,
            res matches Ok(t) ==> t@ == tid_text(
                final(self).last_timestamp_micros as nat,
                final(self).clock_id as nat,
            ),
    {
        let timestamp = reserve_monotonic_timestamp(&mut self.last_timestamp_micros, now_micros);
        if timestamp > MAX_TID_TIMESTAMP {
            return Err(TidError::TimestampOutOfRange);
        }
        proof {
            lemma_pow32_bounds();
        }
        let mut tid = String::new();
        encode_fixed_base32(timestamp, 11, &mut tid);
        encode_fixed_base32(self.clock_id as u64, 2, &mut tid);
        Ok(tid)
    }

    /// Generate a new ATProto TID from the system clock.
    pub fn next_tid(&mut self) -> (res: Result<String, TidError>)
        requires
            old(self).wf(),
        ensures
            final(self).wf(),
            final(self).clock_id == old(self).clock_id,
            final(self).last_timestamp_micros >= old(self).last_timestamp_micros,
            old(self).last_timestamp_micros < u64::MAX && res is Ok
                ==> final(self).last_timestamp_micros > old(self).last_timestamp_micros,
            res matches Ok(t) ==> t@ == tid_text(
                final(self).last_timestamp_micros as nat,
                final(self).clock_id as nat,
            ),
            match res {
                Err(TidError::ClockBeforeEpoch) => *final(self) == *old(self),
                _ => exists|now: u64|
                    final(self).last_timestamp_micros == #[trigger] next_timestamp(
                        old(self).last_timestamp_micros,
                        now,
                    ),
            },
            res matches Err(TidError::TimestampOutOfRange) <==> (res !is Ok && !(res matches Err(
                TidError::ClockBeforeEpoch,
            ))),
            (res !is Err || !(res matches Err(TidError::ClockBeforeEpoch))) ==> (res is Ok
                <==> final(self).last_timestamp_micros <= MAX_TID_TIMESTAMP),
    {
        match unix_time_micros() {
            Some(now) => self.tid_at(now),
            None => Err(TidError::ClockBeforeEpoch),
        }
    }
}

/// `32^11` exceeds the TID timestamp range and `32^2` the clock-id range.
proof fn lemma_pow32_bounds()
    ensures
        pow32(11) == 36028797018963968,
        pow32(2) == 1024,
{
    reveal_with_fuel(pow32, 12);
}

/// The current time in microseconds since the Unix epoch
/// (`SystemTime::now().duration_since(UNIX_EPOCH)`), or `None` when the clock
/// reads before the epoch. It depends on the time, so nothing is stated of it.
#[verifier::external_body]
pub(crate) fn unix_time_micros() -> Option<u64> {
    match std::time::SystemTime::now().duration_since(std::time::UNIX_EPOCH) {
        Ok(d) => Some(d.as_micros() as u64),
        Err(_) => None,
    }
}

/// A random `u32` from the operating system (`OsRng::next_u32`); nothing is
/// stated of its value.
#[verifier::external_body]
fn random_u32() -> u32 {
    secp256k1::rand::rngs::OsRng.next_u32()
}

// ---------------------------------------------------------------------------
// Ordering law
// ---------------------------------------------------------------------------

/// Symbols of smaller digits are smaller characters.
proof fn lemma_symbol_monotone(a: nat, b: nat)
    requires
        a < b < 32,
    ensures
        (base32_symbol(a) as u32) < (base32_symbol(b) as u32),
{
}

/// Lexicographic order survives appending one character to each side of
/// equal-length sequences.
proof fn lemma_lex_push(a: Seq<char>, b: Seq<char>, x: char, y: char)
    requires
        a.len() == b.len(),
        lex_lt(a, b) || (a == b && (x as u32) < (y as u32)),
    ensures
        lex_lt(a.push(x), b.push(y)),
{
    if lex_lt(a, b) {
        let i = choose|i: int|
            0 <= i <= a.len() && i <= b.len() && a.take(i) == b.take(i) && ((i == a.len() && i
                < b.len()) || (i < a.len() && i < b.len() && (a[i] as u32) < (b[i] as u32)));
        assert(a.push(x).take(i) =~= a.take(i));
        assert(b.push(y).take(i) =~= b.take(i));
    } else {
        let i = a.len() as int;
        assert(a.push(x).take(i) =~= a);
        assert(b.push(y).take(i) =~= b);
    }
}

/// Fixed-width encoding preserves the order of values that fit.
proof fn lemma_fixed_order(u: nat, v: nat, w: nat)
    requires
        u < v < pow32(w),
    ensures
        lex_lt(fixed_base32(u, w), fixed_base32(v, w)),
    decreases w,
{
    if w == 0 {
        assert(pow32(0) == 1);
    } else {
        lemma_fixed_len(u / 32, (w - 1) as nat);
        lemma_fixed_len(v / 32, (w - 1) as nat);
        lemma_fixed_unfold(u, w);
        lemma_fixed_unfold(v, w);
        let p = pow32((w - 1) as nat);
        assert(pow32(w) == 32 * p);
        assert(v / 32 < p) by (nonlinear_arith)
            requires
                v < 32 * p,
        ;
        if u / 32 < v / 32 {
            lemma_fixed_order(u / 32, v / 32, (w - 1) as nat);
        } else {
            assert(u / 32 == v / 32);
            assert(u % 32 < v % 32);
            lemma_symbol_monotone(u % 32, v % 32);
        }
        lemma_lex_push(
            fixed_base32(u / 32, (w - 1) as nat),
            fixed_base32(v / 32, (w - 1) as nat),
            base32_symbol(u % 32),
            base32_symbol(v % 32),
        );
    }
}

/// Appending a common suffix to equal-length sequences keeps their order.
proof fn lemma_lex_append(a: Seq<char>, b: Seq<char>, c: Seq<char>)
    requires
        a.len() == b.len(),
        lex_lt(a, b),
    ensures
        lex_lt(a + c, b + c),
{
    let i = choose|i: int|
        0 <= i <= a.len() && i <= b.len() && a.take(i) == b.take(i) && ((i == a.len() && i
            < b.len()) || (i < a.len() && i < b.len() && (a[i] as u32) < (b[i] as u32)));
    assert((a + c).take(i) =~= a.take(i));
    assert((b + c).take(i) =~= b.take(i));
    assert((a + c)[i] == a[i]);
    assert((b + c)[i] == b[i]);
}

/// TIDs with a larger timestamp sort strictly after TIDs with a smaller one
/// from the same clock: the TIDs a clock issues are strictly increasing.
pub proof fn tids_sort_by_timestamp(earlier: nat, later: nat, clock_id: nat)
    requires
        earlier < later <= MAX_TID_TIMESTAMP,
        clock_id < 1024,
    ensures
        lex_lt(tid_text(earlier, clock_id), tid_text(later, clock_id)),
        tid_text(later, clock_id).len() == 13,
{
    lemma_pow32_bounds();
    lemma_fixed_order(earlier, later, 11);
    lemma_fixed_len(earlier, 11);
    lemma_fixed_len(later, 11);
    lemma_fixed_len(clock_id, 2);
    lemma_lex_append(fixed_base32(earlier, 11), fixed_base32(later, 11), fixed_base32(clock_id, 2));
}

/// Every TID character is a symbol of the sortable base32 alphabet.
pub proof fn tid_chars_are_symbols(timestamp: nat, clock_id: nat, i: int)
    requires
        0 <= i < 13,
    ensures
        exists|d: nat| d < 32 && tid_text(timestamp, clock_id)[i] == base32_symbol(d),
{
    lemma_fixed_len(timestamp, 11);
    lemma_fixed_len(clock_id, 2);
    lemma_fixed_symbols(timestamp, 11);
    lemma_fixed_symbols(clock_id, 2);
    if i < 11 {
        assert(tid_text(timestamp, clock_id)[i] == fixed_base32(timestamp, 11)[i]);
    } else {
        assert(tid_text(timestamp, clock_id)[i] == fixed_base32(clock_id, 2)[i - 11]);
    }
}

/// Each character of a fixed-width encoding is a digit symbol.
proof fn lemma_fixed_symbols(value: nat, width: nat)
    ensures
        forall|i: int|
            0 <= i < fixed_base32(value, width).len() ==> exists|d: nat|
                d < 32 && #[trigger] fixed_base32(value, width)[i] == base32_symbol(d),
    decreases width,
{
    if width > 0 {
        lemma_fixed_symbols(value / 32, (width - 1) as nat);
        lemma_fixed_unfold(value, width);
        let p = fixed_base32(value / 32, (width - 1) as nat);
        assert forall|i: int|
            0 <= i < fixed_base32(value, width).len() implies exists|d: nat|
                d < 32 && #[trigger] fixed_base32(value, width)[i] == base32_symbol(d) by {
            if i < p.len() {
                assert(fixed_base32(value, width)[i] == p[i]);
            } else {
                assert(fixed_base32(value, width)[i] == base32_symbol(value % 32));
            }
        }
    }
}
} // verus!
