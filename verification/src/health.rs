//! Runtime health state of the bridge and the status codes of its internal API.
//!
//! Three consecutive readiness failures (relay or runtime) mark the bridge
//! degraded; a success clears the count. Processing failures only record the
//! last error.

use vstd::prelude::*;
use crate::chars::{char_vec, push_all, str_equal};

verus! {

broadcast use vstd::seq_lib::group_seq_properties;

/// Consecutive readiness failures after which the bridge reports not ready.
pub const DEGRADED_FAILURE_THRESHOLD: u32 = 3;

/// Readiness bookkeeping shared by the workers and the health endpoint.
pub struct RuntimeHealthState {
    pub consecutive_readiness_failures: u32,
    pub degraded: bool,
    pub last_error: Option<String>,
}

/// `2^e` for small exponents.
pub open spec fn pow2_secs(e: nat) -> nat
    decreases e,
{
    if e == 0 {
        1
    } else {
        2 * pow2_secs((e - 1) as nat)
    }
}

/// Retry delay in seconds after `failures` consecutive failures: `2^k` with
/// `k = min(max(failures, 1), 5)`.
pub open spec fn retry_delay_secs(failures: u32) -> nat {
    let e = if failures > 5 {
        5
    } else if failures < 1 {
        1
    } else {
        failures
    };
    pow2_secs(e as nat)
}

impl RuntimeHealthState {
    /// Degraded exactly when the failure count reached the threshold.
    pub open spec fn wf(&self) -> bool {
        self.degraded == (self.consecutive_readiness_failures >= DEGRADED_FAILURE_THRESHOLD)
    }

    pub fn new() -> (s: RuntimeHealthState)
        ensures
            s.wf(),
            s.consecutive_readiness_failures == 0,
            !s.degraded,
            s.last_error is None,
    {
        RuntimeHealthState { consecutive_readiness_failures: 0, degraded: false, last_error: None }
    }

    pub fn record_relay_failure(&mut self, error: String)
        requires
            old(self).wf(),
        ensures
            final(self).wf(),
            final(self).consecutive_readiness_failures == after_failure(old(self).consecutive_readiness_failures),
            final(self).last_error matches Some(e) && e@ == error@,
    {
        self.record_readiness_failure(error);
    }

    pub fn record_runtime_failure(&mut self, error: String)
        requires
            old(self).wf(),
        ensures
            final(self).wf(),
            final(self).consecutive_readiness_failures == after_failure(old(self).consecutive_readiness_failures),
            final(self).last_error matches Some(e) && e@ == error@,
    {
        self.record_readiness_failure(error);
    }

    /// A failed job is recorded but does not affect readiness.
    pub fn record_processing_failure(&mut self, error: String)
        requires
            old(self).wf(),
        ensures
            final(self).wf(),
            final(self).consecutive_readiness_failures == old(self).consecutive_readiness_failures,
            final(self).degraded == old(self).degraded,
            final(self).last_error matches Some(e) && e@ == error@,
    {
        self.last_error = Some(error);
    }

    /// A success clears failures, readiness and the last error.
    pub fn record_success(&mut self)
        ensures
            final(self).wf(),
            final(self).consecutive_readiness_failures == 0,
            !final(self).degraded,
            final(self).last_error is None,
    {
        self.consecutive_readiness_failures = 0;
        self.degraded = false;
        self.last_error = None;
    }

    pub fn is_ready(&self) -> (b: bool)
        ensures
            b == !self.degraded,
    {
        !self.degraded
    }

    /// Delay before the next retry, in seconds.
    pub fn next_retry_delay(&self) -> (secs: u64)
        ensures
            secs == retry_delay_secs(self.consecutive_readiness_failures),
    {
        let failures = self.consecutive_readiness_failures;
        let e = if failures > 5 {
            5
        } else if failures < 1 {
            1
        } else {
            failures
        };
        let mut secs: u64 = 1;
        let mut k: u32 = 0;
        while k < e
            invariant
                k <= e <= 5,
                secs == pow2_secs(k as nat),
            decreases e - k,
        {
            proof {
                lemma_pow2_small(k as nat);
            }
            secs = secs * 2;
            k += 1;
            assert(pow2_secs(k as nat) == 2 * pow2_secs((k - 1) as nat));
        }
        secs
    }

    pub fn record_readiness_failure(&mut self, error: String)
        requires
            old(self).wf(),
        ensures
            final(self).wf(),
            final(self).consecutive_readiness_failures == after_failure(old(self).consecutive_readiness_failures),
            final(self).last_error matches Some(e) && e@ == error@,
    {
        self.consecutive_readiness_failures = self.consecutive_readiness_failures.saturating_add(1);
        self.last_error = Some(error);
        if self.consecutive_readiness_failures >= DEGRADED_FAILURE_THRESHOLD {
            self.degraded = true;
        }
    }
}

/// Small powers of two.
proof fn lemma_pow2_small(k: nat)
    requires
        k < 5,
    ensures
        pow2_secs(k) <= 16,
{
    reveal_with_fuel(pow2_secs, 6);
}

/// The failure count after one more readiness failure (saturating).
pub open spec fn after_failure(count: u32) -> u32 {
    if count == u32::MAX {
        u32::MAX
    } else {
        (count + 1) as u32
    }
}

/// The failure count after `k` more readiness failures in a row.
pub open spec fn after_failures(count: u32, k: nat) -> u32
    decreases k,
{
    if k == 0 {
        count
    } else {
        after_failure(after_failures(count, (k - 1) as nat))
    }
}

proof fn lemma_after_failures_from_zero(k: nat)
    ensures
        after_failures(0, k) == if k <= u32::MAX {
            k
        } else {
            u32::MAX as nat
        },
    decreases k,
{
    if k > 0 {
        lemma_after_failures_from_zero((k - 1) as nat);
    }
}

/// From a fresh state (count 0), `k` readiness failures in a row (relay,
/// runtime or readiness failures alike) leave the service ready exactly when
/// `k < 3`.
pub proof fn ready_after_consecutive_failures(s: RuntimeHealthState, k: nat)
    requires
        s.wf(),
        s.consecutive_readiness_failures == after_failures(0, k),
    ensures
        !s.degraded <==> k < 3,
{
    lemma_after_failures_from_zero(k);
}

/// Readiness is lost only after three consecutive readiness failures, and a
/// success restores it.
pub proof fn readiness_follows_failure_count(s: RuntimeHealthState)
    requires
        s.wf(),
    ensures
        !s.degraded <==> s.consecutive_readiness_failures < 3,
{
}

// ---------------------------------------------------------------------------
// Internal API status codes
// ---------------------------------------------------------------------------

/// `pat` occurs in `s` (`str::contains`).
pub open spec fn contains_seq(s: Seq<char>, pat: Seq<char>) -> bool {
    exists|i: int| 0 <= i && i + pat.len() <= s.len() && #[trigger] s.subrange(i, i + pat.len()) == pat
}

/// Whether `pat` occurs in `s`.
pub fn str_contains(s: &str, pat: &str) -> (res: bool)
    ensures
        res == contains_seq(s@, pat@),
{
    let vs = char_vec(s);
    let vp = char_vec(pat);
    if vp.len() > vs.len() {
        return false;
    }
    let vn = vs.len();
    let limit = vn - vp.len();
    if limit == usize::MAX {
        // an empty pattern in a maximal text: it occurs at position 0
        assert(vs@.subrange(0, 0 + vp@.len() as int) =~= vp@);
        return true;
    }
    let mut i: usize = 0;
    while i <= limit
        invariant
            vs@ == s@,
            vp@ == pat@,
            vp@.len() <= vs@.len(),
            limit == vs@.len() - vp@.len(),
            limit < usize::MAX,
            vn == vs@.len(),
            i <= limit + 1,
            forall|k: int| 0 <= k < i ==> #[trigger] vs@.subrange(k, k + vp@.len()) != vp@,
        decreases limit + 1 - i,
    {
        let mut j: usize = 0;
        let mut matched = true;
        while j < vp.len()
            invariant
                vs@ == s@,
                vp@ == pat@,
                i + vp@.len() <= vs@.len(),
                i <= limit,
                limit == vs@.len() - vp@.len(),
                limit < usize::MAX,
                vn == vs@.len(),
                j <= vp@.len(),
                matched ==> forall|m: int| 0 <= m < j ==> vs@[i + m] == vp@[m],
                !matched ==> vs@.subrange(i as int, i + vp@.len()) != vp@,
            decreases vp.len() - j,
        {
            if vs[i + j] != vp[j] {
                matched = false;
                assert(vs@.subrange(i as int, i + vp@.len())[j as int] == vs@[i + j]);
            }
            j += 1;
        }
        if matched {
            assert(vs@.subrange(i as int, i + vp@.len()) =~= vp@);
            return true;
        }
        i += 1;
    }
    assert(!contains_seq(s@, pat@)) by {
        if contains_seq(s@, pat@) {
            let k = choose|k: int|
                0 <= k && k + pat@.len() <= s@.len() && #[trigger] s@.subrange(k, k + pat@.len())
                    == pat@;
            assert(k < i);
        }
    }
    false
}

/// The HTTP status of a failed provisioning request, from its message:
/// 409 for handle conflicts and disabled links, 400 for malformed handles,
/// else 500.
pub open spec fn status_for_error_spec(message: Seq<char>) -> u16 {
    if contains_seq(message, "handle already taken"@) || contains_seq(message, "different handle"@)
        || contains_seq(message, "account link is disabled"@) {
        409
    } else if contains_seq(message, "handle must end with"@) || contains_seq(
        message,
        "handle must include"@,
    ) {
        400
    } else {
        500
    }
}

/// Map a provisioning error message to an HTTP status code.
pub fn status_for_error(message: &str) -> (status: u16)
    ensures
        status == status_for_error_spec(message@),
{
    if str_contains(message, "handle already taken") || str_contains(message, "different handle")
        || str_contains(message, "account link is disabled") {
        return 409;
    }
    if str_contains(message, "handle must end with") || str_contains(message, "handle must include") {
        return 400;
    }
    500
}

// ---------------------------------------------------------------------------
// Internal API access and readiness
// ---------------------------------------------------------------------------

/// The HTTP status of a refused internal API request.
pub const STATUS_UNAUTHORIZED: u16 = 401;

/// Whether the internal API lets a provisioning request through: only when
/// provisioning is configured, and then, when a bearer token is expected, only
/// with an `Authorization` header of exactly `Bearer {token}` (a missing or
/// unreadable header reads as empty).
pub open spec fn internal_auth_spec(
    provisioner_configured: bool,
    expected_bearer: Option<Seq<char>>,
    authorization: Option<Seq<char>>,
) -> bool {
    provisioner_configured && match expected_bearer {
        None => true,
        Some(t) => "Bearer "@ + t == match authorization {
            Some(a) => a,
            None => Seq::<char>::empty(),
        },
    }
}

/// Check a provisioning request's credentials; `Err` carries 401.
pub fn require_internal_auth(
    provisioner_configured: bool,
    expected_bearer: Option<&str>,
    authorization: Option<&str>,
) -> (res: Result<(), u16>)
    ensures
        res is Ok <==> internal_auth_spec(
            provisioner_configured,
            match expected_bearer {
                Some(t) => Some(t@),
                None => None,
            },
            match authorization {
                Some(a) => Some(a@),
                None => None,
            },
        ),
        res matches Err(code) ==> code == STATUS_UNAUTHORIZED,
{
    if !provisioner_configured {
        return Err(STATUS_UNAUTHORIZED);
    }
    let token = match expected_bearer {
        None => return Ok(()),
        Some(t) => t,
    };
    let mut expected = "Bearer ".to_string();
    push_all(&mut expected, token);
    let actual = match authorization {
        Some(a) => a,
        None => "",
    };
    proof {
        reveal_strlit("");
    }
    assert(expected@ == "Bearer "@ + token@);
    assert(actual@ == match authorization {
        Some(a) => a@,
        None => Seq::<char>::empty(),
    });
    if str_equal(expected.as_str(), actual) {
        Ok(())
    } else {
        Err(STATUS_UNAUTHORIZED)
    }
}

/// The status of a readiness probe: 200 when ready, else 503.
pub fn readiness_status(ready: bool) -> (status: u16)
    ensures
        status == if ready {
            200u16
        } else {
            503u16
        },
{
    if ready {
        200
    } else {
        503
    }
}

} // verus!
