//! Service configuration values and the rules that interpret them.
//!
//! Reading the environment happens at the application edge; this module holds
//! the configuration records and the parsing and selection rules.

use vstd::prelude::*;
use crate::chars::{
    ascii_lower_seq, char_vec, is_white_space, push_char, starts_with, str_equal,
    string_from_chars, to_ascii_lowercase, trim_chars, trim_seq,
};
use crate::event::strings_view;
use crate::profile_sync::opt_view;
use crate::translator::{all_digits, digits_value, lemma_digit_step, lemma_digits_value_monotone, unsigned_body};

verus! {

broadcast use vstd::seq_lib::group_seq_properties;

/// Handle domain of the production Divine deployment.
pub const PRODUCTION_DIVINE_HANDLE_DOMAIN: &'static str = "divine.video";
/// PDS origin of the production Divine deployment.
pub const PRODUCTION_DIVINE_PDS_URL: &'static str = "https://pds.divine.video";
/// Accounts taken per backfill planner run.
pub const DEFAULT_BACKFILL_BATCH_SIZE: i64 = 25;
/// Seconds between backfill planner runs.
pub const DEFAULT_BACKFILL_PLANNER_INTERVAL_SECS: u64 = 30;
/// PLC allows five rotation keys and rsky adds its own operational key.
pub const MAX_RECOVERY_ROTATION_KEYS: usize = 4;

/// Configuration for the ATBridge service.
pub struct BridgeConfig {
    /// Funnelcake relay WebSocket URL (RELAY_URL).
    pub relay_url: String,
    /// rsky-pds XRPC base URL (PDS_URL).
    pub pds_url: String,
    /// Bearer token used for PDS XRPC writes (PDS_AUTH_TOKEN).
    pub pds_auth_token: String,
    /// Blossom server base URL (BLOSSOM_URL).
    pub blossom_url: String,
    /// PostgreSQL connection string (DATABASE_URL).
    pub database_url: String,
    /// S3-compatible endpoint (S3_ENDPOINT).
    pub s3_endpoint: String,
    /// S3 bucket name (S3_BUCKET).
    pub s3_bucket: String,
    /// Logical relay source name for replay offsets (RELAY_SOURCE_NAME).
    pub relay_source_name: String,
    /// Internal API server bind address (HEALTH_BIND_ADDR).
    pub health_bind_addr: String,
    /// PLC directory base URL (PLC_DIRECTORY_URL).
    pub plc_directory_url: String,
    /// Handle domain accepted for provisioning (HANDLE_DOMAIN).
    pub handle_domain: String,
    /// Offline recovery PLC rotation keys, as did:key values, highest priority first.
    pub plc_recovery_rotation_did_keys: Vec<String>,
    /// Email domain used to synthesize per-account addresses (ACCOUNT_EMAIL_DOMAIN).
    pub account_email_domain: String,
    /// Shared bearer token for the internal provisioning API.
    pub provisioning_bearer_token: String,
    /// Base URL for the video transcoding service (VIDEO_SERVICE_URL).
    pub video_service_url: String,
    /// Whether video uploads go through the video service (VIDEO_SERVICE_ENABLED).
    pub video_service_enabled: bool,
    /// Seconds to poll a transcoding job before giving up.
    pub video_service_poll_timeout_secs: u64,
    /// Milliseconds between transcoding job polls.
    pub video_service_poll_interval_ms: u64,
    /// Whether the lease-expiry watchdog runs (WATCHDOG_ENABLED).
    pub watchdog_enabled: bool,
    /// Watchdog poll cadence in seconds (WATCHDOG_INTERVAL_SECS).
    pub watchdog_interval_secs: u64,
}

/// Configuration of the AppView indexer.
pub struct IndexerConfig {
    pub database_url: String,
    pub pds_base_url: String,
    pub relay_url: String,
    pub oneshot: bool,
}

/// Configuration of the AppView HTTP service.
pub struct AppviewConfig {
    pub bind_addr: String,
    pub database_url: String,
    pub media_base_url: String,
    pub viewer_origin: Option<String>,
}

/// `s` without its leading `.` characters (`str::trim_start_matches('.')`).
pub open spec fn strip_leading_dots(s: Seq<char>) -> Seq<char>
    decreases s.len(),
{
    if s.len() > 0 && s[0] == '.' {
        strip_leading_dots(s.drop_first())
    } else {
        s
    }
}

/// The normalised handle domain: trimmed, leading dots removed, ASCII lower case.
pub open spec fn normalised_domain(s: Seq<char>) -> Seq<char> {
    ascii_lower_seq(strip_leading_dots(trim_seq(s)))
}

/// The PDS URL that provisioning writes into new DID documents.
pub open spec fn provisioning_pds_url_spec(handle_domain: Seq<char>, pds_url: Seq<char>) -> Seq<
    char,
> {
    let t = trim_seq(pds_url);
    if normalised_domain(handle_domain) == "divine.video"@ && t.len() >= 8 && t.take(8)
        == "https://"@ {
        "https://pds.divine.video"@
    } else {
        pds_url
    }
}

/// Removes leading `.` characters.
pub fn strip_dots(v: &Vec<char>) -> (res: Vec<char>)
    ensures
        res@ == strip_leading_dots(v@),
{
    let mut i: usize = 0;
    while i < v.len() && v[i] == '.'
        invariant
            i <= v@.len(),
            strip_leading_dots(v@) == strip_leading_dots(v@.skip(i as int)),
        decreases v.len() - i,
    {
        assert(v@.skip(i as int).drop_first() =~= v@.skip(i + 1));
        i += 1;
    }
    let mut res: Vec<char> = Vec::new();
    let mut k = i;
    while k < v.len()
        invariant
            i <= k <= v@.len(),
            res@ == v@.subrange(i as int, k as int),
        decreases v.len() - k,
    {
        res.push(v[k]);
        k += 1;
    }
    assert(res@ =~= v@.skip(i as int));
    res
}

impl BridgeConfig {
    /// The PDS URL to publish in provisioned DID documents: the production
    /// PDS for the production handle domain over HTTPS, else `pds_url`.
    pub fn provisioning_pds_url(&self) -> (res: String)
        ensures
            res@ == provisioning_pds_url_spec(self.handle_domain@, self.pds_url@),
    {
        let domain = to_ascii_lowercase(&strip_dots(&trim_chars(&char_vec(self.handle_domain.as_str()))));
        let domain = string_from_chars(&domain);
        let pds = string_from_chars(&trim_chars(&char_vec(self.pds_url.as_str())));
        if str_equal(domain.as_str(), PRODUCTION_DIVINE_HANDLE_DOMAIN) && starts_with(
            pds.as_str(),
            "https://",
        ) {
            proof {
                reveal_strlit("https://");
            }
            return PRODUCTION_DIVINE_PDS_URL.to_owned();
        }
        proof {
            reveal_strlit("https://");
        }
        self.pds_url.clone()
    }
}

// ---------------------------------------------------------------------------
// Recovery rotation keys
// ---------------------------------------------------------------------------

/// Why a recovery rotation key list was rejected.
pub enum RecoveryKeyError {
    /// An entry is not a `did:key` value.
    NotDidKey,
    /// An entry occurs twice.
    Duplicate { key: String },
    /// More than four keys were listed.
    TooMany,
}

/// The text of each recovery key error.
pub open spec fn recovery_key_error_text(e: RecoveryKeyError) -> Seq<char> {
    match e {
        RecoveryKeyError::NotDidKey => "PLC_RECOVERY_ROTATION_DID_KEYS entries must be did:key values"@,
        RecoveryKeyError::Duplicate { key } => "duplicate PLC recovery rotation key: "@ + key@,
        RecoveryKeyError::TooMany => "PLC_RECOVERY_ROTATION_DID_KEYS supports at most 4 recovery keys"@,
    }
}

impl RecoveryKeyError {
    /// Human-readable message for the error.
    pub fn message(&self) -> (m: String)
        ensures
            m@ == recovery_key_error_text(*self),
    {
        match self {
            RecoveryKeyError::NotDidKey => "PLC_RECOVERY_ROTATION_DID_KEYS entries must be did:key values".to_owned(),
            RecoveryKeyError::Duplicate { key } => {
                let mut m = "duplicate PLC recovery rotation key: ".to_owned();
                crate::chars::push_all(&mut m, key.as_str());
                m
            },
            RecoveryKeyError::TooMany => "PLC_RECOVERY_ROTATION_DID_KEYS supports at most 4 recovery keys".to_owned(),
        }
    }
}

/// The pieces of `s` between commas (`str::split(',')`), in order.
pub open spec fn split_commas(s: Seq<char>) -> Seq<Seq<char>>
    decreases s.len(),
{
    if s.len() == 0 {
        seq![Seq::empty()]
    } else {
        let r = split_commas(s.drop_last());
        if s.last() == ',' {
            r.push(Seq::empty())
        } else {
            r.update(r.len() - 1, r.last().push(s.last()))
        }
    }
}

/// The trimmed, non-empty comma-separated entries of `pieces`, in order.
pub open spec fn nonempty_trimmed(pieces: Seq<Seq<char>>) -> Seq<Seq<char>>
    decreases pieces.len(),
{
    if pieces.len() == 0 {
        Seq::empty()
    } else {
        let r = nonempty_trimmed(pieces.drop_last());
        if trim_seq(pieces.last()).len() > 0 {
            r.push(trim_seq(pieces.last()))
        } else {
            r
        }
    }
}

/// The entries listed in a comma-separated setting (an unset one lists none).
pub open spec fn listed_entries(value: Option<Seq<char>>) -> Seq<Seq<char>> {
    match value {
        Some(v) => nonempty_trimmed(split_commas(v)),
        None => Seq::empty(),
    }
}

/// A `did:key:` value.
pub open spec fn is_did_key(k: Seq<char>) -> bool {
    k.len() >= 8 && k.take(8) == "did:key:"@
}

/// Which check first fails when the entries are accepted one by one, in
/// order: `Some(None)` for an entry that is not a `did:key`, `Some(Some(k))`
/// for an entry `k` already accepted, `None` when all pass.
pub open spec fn check_entries(entries: Seq<Seq<char>>) -> Option<Option<Seq<char>>>
    decreases entries.len(),
{
    if entries.len() == 0 {
        None
    } else {
        match check_entries(entries.drop_last()) {
            Some(f) => Some(f),
            None => if !is_did_key(entries.last()) {
                Some(None)
            } else if entries.drop_last().contains(entries.last()) {
                Some(Some(entries.last()))
            } else {
                None
            },
        }
    }
}

/// The failed check an error reports, in the form of `check_entries`.
pub open spec fn failure_of(e: RecoveryKeyError) -> Option<Option<Seq<char>>> {
    match e {
        RecoveryKeyError::NotDidKey => Some(None),
        RecoveryKeyError::Duplicate { key } => Some(Some(key@)),
        RecoveryKeyError::TooMany => None,
    }
}

/// The outcome of parsing the recovery key setting: the first failing entry
/// check, else too many keys, else the entries.
pub open spec fn recovery_keys_result(value: Option<Seq<char>>, res: Result<Vec<String>, RecoveryKeyError>) -> bool {
    let entries = listed_entries(value);
    match check_entries(entries) {
        Some(f) => res matches Err(e) && failure_of(e) == Some(f),
        None => if entries.len() > MAX_RECOVERY_ROTATION_KEYS {
            res matches Err(e) && e is TooMany
        } else {
            res matches Ok(keys) && strings_view(keys@) == entries
        },
    }
}

/// The pieces of `v` between commas.
fn split_on_commas(v: &Vec<char>) -> (res: Vec<Vec<char>>)
    ensures
        res@.len() == split_commas(v@).len(),
        forall|i: int| 0 <= i < res@.len() ==> (#[trigger] res@[i])@ == split_commas(v@)[i],
{
    let mut res: Vec<Vec<char>> = Vec::new();
    let mut cur: Vec<char> = Vec::new();
    let mut i: usize = 0;
    while i < v.len()
        invariant
            i <= v@.len(),
            res@.len() + 1 == split_commas(v@.take(i as int)).len(),
            forall|j: int| 0 <= j < res@.len() ==> (#[trigger] res@[j])@ == split_commas(v@.take(i as int))[j],
            cur@ == split_commas(v@.take(i as int)).last(),
        decreases v.len() - i,
    {
        assert(v@.take(i + 1).drop_last() =~= v@.take(i as int));
        if v[i] == ',' {
            res.push(cur);
            cur = Vec::new();
        } else {
            cur.push(v[i]);
        }
        i += 1;
    }
    res.push(cur);
    assert(v@.take(i as int) =~= v@);
    res
}

/// Parse the comma-separated `PLC_RECOVERY_ROTATION_DID_KEYS` value into a
/// validated, deduplicated list of `did:key` recovery rotation keys.
pub fn parse_recovery_rotation_did_keys(value: Option<&str>) -> (res: Result<Vec<String>, RecoveryKeyError>)
    ensures
        recovery_keys_result(
            match value {
                Some(v) => Some(v@),
                None => None,
            },
            res,
        ),
{
    let ghost value_view = match value {
        Some(v) => Some(v@),
        None => None,
    };
    let pieces = match value {
        Some(v) => split_on_commas(&char_vec(v)),
        None => Vec::new(),
    };
    let ghost pieces_view = match value {
        Some(v) => split_commas(v@),
        None => Seq::empty(),
    };
    assert(pieces@.len() == pieces_view.len());
    let ghost entries = listed_entries(value_view);
    assert(value is None ==> entries =~= nonempty_trimmed(pieces_view));
    let mut keys: Vec<String> = Vec::new();
    let mut i: usize = 0;
    while i < pieces.len()
        invariant
            i <= pieces@.len() == pieces_view.len(),
            forall|j: int| 0 <= j < pieces@.len() ==> (#[trigger] pieces@[j])@ == pieces_view[j],
            entries == nonempty_trimmed(pieces_view),
            entries == listed_entries(value_view),
            value_view == (match value {
                Some(v) => Some(v@),
                None => None,
            }),
            check_entries(nonempty_trimmed(pieces_view.take(i as int))) is None,
            strings_view(keys@) == nonempty_trimmed(pieces_view.take(i as int)),
        decreases pieces.len() - i,
    {
        assert(pieces_view.take(i + 1).drop_last() =~= pieces_view.take(i as int));
        let ghost prev = nonempty_trimmed(pieces_view.take(i as int));
        assert(pieces_view.take(i + 1).last() == pieces_view[i as int]);
        let key = trim_chars(&pieces[i]);
        if key.len() > 0 {
            let ks = string_from_chars(&key);
            assert(nonempty_trimmed(pieces_view.take(i + 1)) == prev.push(ks@));
            assert(prev.push(ks@).drop_last() =~= prev);
            proof {
                reveal_strlit("did:key:");
            }
            if !starts_with(ks.as_str(), "did:key:") {
                proof {
                    assert(!is_did_key(ks@));
                    assert(check_entries(prev.push(ks@)) == Some(None::<Seq<char>>));
                    lemma_check_prefix(pieces_view, i as int + 1);
                }
                return Err(RecoveryKeyError::NotDidKey);
            }
            if contains_string(&keys, ks.as_str()) {
                proof {
                    assert(prev.contains(ks@));
                    assert(check_entries(prev.push(ks@)) == Some(Some(ks@)));
                    lemma_check_prefix(pieces_view, i as int + 1);
                }
                return Err(RecoveryKeyError::Duplicate { key: ks });
            }
            keys.push(ks);
            assert(strings_view(keys@) =~= prev.push(ks@));
            assert(check_entries(prev.push(ks@)) is None);
        } else {
            assert(nonempty_trimmed(pieces_view.take(i + 1)) == prev);
        }
        i += 1;
    }
    assert(pieces_view.take(i as int) =~= pieces_view);
    if keys.len() > MAX_RECOVERY_ROTATION_KEYS {
        return Err(RecoveryKeyError::TooMany);
    }
    Ok(keys)
}

/// Whether `s` is one of `keys`.
fn contains_string(keys: &Vec<String>, s: &str) -> (res: bool)
    ensures
        res == strings_view(keys@).contains(s@),
{
    let mut j: usize = 0;
    while j < keys.len()
        invariant
            j <= keys@.len(),
            forall|m: int| 0 <= m < j ==> keys@[m]@ != s@,
        decreases keys.len() - j,
    {
        if str_equal(keys[j].as_str(), s) {
            assert(strings_view(keys@)[j as int] == s@);
            return true;
        }
        j += 1;
    }
    assert(!strings_view(keys@).contains(s@)) by {
        if strings_view(keys@).contains(s@) {
            let m = choose|m: int| 0 <= m < keys@.len() && strings_view(keys@)[m] == s@;
            assert(keys@[m]@ == s@);
        }
    }
    false
}

/// A failure among the first entries is the overall failure.
proof fn lemma_check_prefix(pieces: Seq<Seq<char>>, n: int)
    requires
        0 <= n <= pieces.len(),
        check_entries(nonempty_trimmed(pieces.take(n))) is Some,
    ensures
        check_entries(nonempty_trimmed(pieces)) == check_entries(nonempty_trimmed(pieces.take(n))),
    decreases pieces.len() - n,
{
    if n < pieces.len() {
        assert(pieces.take(n + 1).drop_last() =~= pieces.take(n));
        let r = nonempty_trimmed(pieces.take(n));
        let x = trim_seq(pieces.take(n + 1).last());
        if x.len() > 0 {
            assert(nonempty_trimmed(pieces.take(n + 1)) == r.push(x));
            assert(r.push(x).drop_last() =~= r);
        } else {
            assert(nonempty_trimmed(pieces.take(n + 1)) == r);
        }
        lemma_check_prefix(pieces, n + 1);
    } else {
        assert(pieces.take(n) =~= pieces);
    }
}

/// Accepted recovery keys are `did:key` values, pairwise distinct, and at most four.
pub proof fn accepted_recovery_keys_are_valid(value: Option<Seq<char>>, keys: Seq<Seq<char>>)
    requires
        check_entries(listed_entries(value)) is None,
        listed_entries(value).len() <= MAX_RECOVERY_ROTATION_KEYS,
        keys == listed_entries(value),
    ensures
        keys.len() <= 4,
        forall|i: int| 0 <= i < keys.len() ==> is_did_key(#[trigger] keys[i]),
        forall|i: int, j: int| 0 <= i < j < keys.len() ==> keys[i] != keys[j],
{
    lemma_checked_entries(keys);
}

/// `did:key` entries with no repeats pass the checks.
proof fn lemma_valid_entries_pass(entries: Seq<Seq<char>>)
    requires
        forall|i: int| 0 <= i < entries.len() ==> is_did_key(#[trigger] entries[i]),
        forall|i: int, j: int| 0 <= i < j < entries.len() ==> entries[i] != entries[j],
    ensures
        check_entries(entries) is None,
    decreases entries.len(),
{
    if entries.len() > 0 {
        let p = entries.drop_last();
        assert forall|i: int| 0 <= i < p.len() implies is_did_key(#[trigger] p[i]) by {
            assert(p[i] == entries[i]);
        }
        assert forall|i: int, j: int| 0 <= i < j < p.len() implies p[i] != p[j] by {
            assert(p[i] == entries[i] && p[j] == entries[j]);
        }
        lemma_valid_entries_pass(p);
        assert(is_did_key(entries[entries.len() - 1]));
        if p.contains(entries.last()) {
            let i = choose|i: int| 0 <= i < p.len() && p[i] == entries.last();
            assert(entries[i] == entries[entries.len() - 1]);
        }
    }
}

/// The recovery keys are accepted exactly when the listed entries (split on
/// commas, trimmed, empty ones dropped, in order) are all `did:key` values,
/// none twice, and at most four; the accepted keys are those entries.
pub proof fn recovery_keys_accepted_exactly_when_valid(
    value: Option<Seq<char>>,
    res: Result<Vec<String>, RecoveryKeyError>,
)
    requires
        recovery_keys_result(value, res),
    ensures
        res is Ok <==> ({
            let e = listed_entries(value);
            &&& e.len() <= MAX_RECOVERY_ROTATION_KEYS
            &&& forall|i: int| 0 <= i < e.len() ==> is_did_key(#[trigger] e[i])
            &&& forall|i: int, j: int| 0 <= i < j < e.len() ==> e[i] != e[j]
        }),
        res matches Ok(keys) ==> strings_view(keys@) == listed_entries(value),
{
    let e = listed_entries(value);
    if check_entries(e) is None {
        lemma_checked_entries(e);
    } else if (forall|i: int| 0 <= i < e.len() ==> is_did_key(#[trigger] e[i])) && (forall|i: int, j: int|
        0 <= i < j < e.len() ==> e[i] != e[j]) {
        lemma_valid_entries_pass(e);
    }
}

/// Entries that pass the checks are `did:key` values with no repeats.
proof fn lemma_checked_entries(entries: Seq<Seq<char>>)
    requires
        check_entries(entries) is None,
    ensures
        forall|i: int| 0 <= i < entries.len() ==> is_did_key(#[trigger] entries[i]),
        forall|i: int, j: int| 0 <= i < j < entries.len() ==> entries[i] != entries[j],
    decreases entries.len(),
{
    if entries.len() > 0 {
        let p = entries.drop_last();
        lemma_checked_entries(p);
        assert forall|i: int, j: int| 0 <= i < j < entries.len() implies entries[i] != entries[j] by {
            if j == entries.len() - 1 {
                assert(p[i] == entries[i]);
                assert(!p.contains(entries.last()));
            } else {
                assert(p[i] == entries[i] && p[j] == entries[j]);
            }
        }
        assert forall|i: int| 0 <= i < entries.len() implies is_did_key(#[trigger] entries[i]) by {
            if i < entries.len() - 1 {
                assert(p[i] == entries[i]);
            }
        }
    }
}

// ---------------------------------------------------------------------------
// Reading the environment
// ---------------------------------------------------------------------------

/// The value of the first variable named `name` in a snapshot of the
/// environment.
pub open spec fn env_value(vars: Seq<(String, String)>, name: Seq<char>) -> Option<Seq<char>>
    decreases vars.len(),
{
    if vars.len() == 0 {
        None
    } else if vars[0].0@ == name {
        Some(vars[0].1@)
    } else {
        env_value(vars.drop_first(), name)
    }
}

/// A variable's value, or `default` when it is unset.
pub open spec fn env_or(vars: Seq<(String, String)>, name: Seq<char>, default: Seq<char>) -> Seq<char> {
    match env_value(vars, name) {
        Some(v) => v,
        None => default,
    }
}

/// A flag variable: set to exactly `true`.
pub open spec fn env_flag(vars: Seq<(String, String)>, name: Seq<char>) -> bool {
    env_value(vars, name) == Some("true"@)
}

/// `str::parse::<u64>`: an optional `+` followed by one or more ASCII digits
/// whose value fits.
pub open spec fn parse_u64_spec(s: Seq<char>) -> Option<u64> {
    let body = unsigned_body(s);
    if body.len() > 0 && all_digits(body) && digits_value(body) <= u64::MAX {
        Some(digits_value(body) as u64)
    } else {
        None
    }
}

/// A numeric variable, or `default` when it is unset or does not parse.
pub open spec fn env_u64(vars: Seq<(String, String)>, name: Seq<char>, default: u64) -> u64 {
    match env_value(vars, name) {
        Some(v) => match parse_u64_spec(v) {
            Some(n) => n,
            None => default,
        },
        None => default,
    }
}

/// Parse a decimal `u64`.
pub fn parse_u64(s: &str) -> (res: Option<u64>)
    ensures
        res == parse_u64_spec(s@),
{
    let v = char_vec(s);
    let start: usize = if v.len() > 0 && v[0] == '+' {
        1
    } else {
        0
    };
    let ghost body = unsigned_body(s@);
    assert(body =~= v@.skip(start as int));
    if start == v.len() {
        return None;
    }
    let mut value: u64 = 0;
    let mut j = start;
    while j < v.len()
        invariant
            start <= j <= v@.len(),
            v@ == s@,
            body == unsigned_body(s@),
            body == v@.skip(start as int),
            all_digits(body.take(j - start)),
            value == digits_value(body.take(j - start)),
        decreases v.len() - j,
    {
        let c = v[j];
        assert(body[(j - start) as int] == c);
        if !('0' <= c && c <= '9') {
            assert(!all_digits(body));
            return None;
        }
        let d = ((c as u32) - ('0' as u32)) as u64;
        assert(body.take(j + 1 - start).drop_last() =~= body.take(j - start));
        proof {
            lemma_digit_step(value as int, d as int, u64::MAX as int);
        }
        if value > (u64::MAX - d) / 10 {
            proof {
                assert(digits_value(body.take(j + 1 - start)) == value * 10 + d);
                if all_digits(body) {
                    lemma_digits_value_monotone(body, j + 1 - start);
                }
            }
            return None;
        }
        value = value * 10 + d;
        j += 1;
    }
    assert(body.take(j - start) =~= body);
    Some(value)
}

/// Look a variable up.
pub fn env_var(vars: &Vec<(String, String)>, name: &str) -> (r: Option<String>)
    ensures
        opt_view(r) == env_value(vars@, name@),
{
    let mut i: usize = 0;
    while i < vars.len()
        invariant
            i <= vars@.len(),
            env_value(vars@, name@) == env_value(vars@.skip(i as int), name@),
        decreases vars.len() - i,
    {
        assert(vars@.skip(i as int).drop_first() =~= vars@.skip(i + 1));
        assert(vars@.skip(i as int)[0] == vars@[i as int]);
        if str_equal(vars[i].0.as_str(), name) {
            return Some(vars[i].1.clone());
        }
        i += 1;
    }
    assert(vars@.skip(i as int).len() == 0);
    None
}

fn env_or_default(vars: &Vec<(String, String)>, name: &str, default: &str) -> (r: String)
    ensures
        r@ == env_or(vars@, name@, default@),
{
    match env_var(vars, name) {
        Some(v) => v,
        None => default.to_string(),
    }
}

fn env_flag_set(vars: &Vec<(String, String)>, name: &str) -> (b: bool)
    ensures
        b == env_flag(vars@, name@),
{
    proof {
        reveal_strlit("true");
    }
    match env_var(vars, name) {
        Some(v) => str_equal(v.as_str(), "true"),
        None => false,
    }
}

fn env_number(vars: &Vec<(String, String)>, name: &str, default: u64) -> (n: u64)
    ensures
        n == env_u64(vars@, name@, default),
{
    match env_var(vars, name) {
        Some(v) => match parse_u64(v.as_str()) {
            Some(n) => n,
            None => default,
        },
        None => default,
    }
}

/// A required variable, or `message` when it is unset.
fn env_required(vars: &Vec<(String, String)>, name: &str, message: &str) -> (r: Result<String, String>)
    ensures
        match env_value(vars@, name@) {
            Some(v) => r matches Ok(x) && x@ == v,
            None => r matches Err(m) && m@ == message@,
        },
{
    match env_var(vars, name) {
        Some(v) => Ok(v),
        None => Err(message.to_string()),
    }
}

/// The error text of a recovery key setting, if it is refused.
pub open spec fn recovery_keys_error(value: Option<Seq<char>>) -> Option<Seq<char>> {
    let entries = listed_entries(value);
    match check_entries(entries) {
        Some(None) => Some(recovery_key_error_text(RecoveryKeyError::NotDidKey)),
        Some(Some(k)) => Some("duplicate PLC recovery rotation key: "@ + k),
        None => if entries.len() > MAX_RECOVERY_ROTATION_KEYS {
            Some(recovery_key_error_text(RecoveryKeyError::TooMany))
        } else {
            None
        },
    }
}

/// Why the bridge's environment is refused: the first required variable
/// that is unset (in the order the configuration lists them), else a refused
/// recovery key setting.
pub open spec fn bridge_config_error(vars: Seq<(String, String)>) -> Option<Seq<char>> {
    if env_value(vars, "RELAY_URL"@) is None {
        Some("RELAY_URL must be set"@)
    } else if env_value(vars, "PDS_URL"@) is None {
        Some("PDS_URL must be set"@)
    } else if env_value(vars, "PDS_AUTH_TOKEN"@) is None {
        Some("PDS_AUTH_TOKEN must be set"@)
    } else if env_value(vars, "BLOSSOM_URL"@) is None {
        Some("BLOSSOM_URL must be set"@)
    } else if env_value(vars, "DATABASE_URL"@) is None {
        Some("DATABASE_URL must be set"@)
    } else if env_value(vars, "S3_ENDPOINT"@) is None {
        Some("S3_ENDPOINT must be set"@)
    } else if env_value(vars, "S3_BUCKET"@) is None {
        Some("S3_BUCKET must be set"@)
    } else if env_value(vars, "PLC_DIRECTORY_URL"@) is None {
        Some("PLC_DIRECTORY_URL must be set"@)
    } else if env_value(vars, "HANDLE_DOMAIN"@) is None {
        Some("HANDLE_DOMAIN must be set"@)
    } else if recovery_keys_error(env_value(vars, "PLC_RECOVERY_ROTATION_DID_KEYS"@)) is Some {
        recovery_keys_error(env_value(vars, "PLC_RECOVERY_ROTATION_DID_KEYS"@))
    } else if env_value(vars, "ATPROTO_PROVISIONING_TOKEN"@) is None {
        Some("ATPROTO_PROVISIONING_TOKEN must be set"@)
    } else {
        None
    }
}

/// The bridge configuration an accepted environment gives.
pub open spec fn bridge_config_of(c: BridgeConfig, vars: Seq<(String, String)>) -> bool {
    &&& Some(c.relay_url@) == env_value(vars, "RELAY_URL"@)
    &&& Some(c.pds_url@) == env_value(vars, "PDS_URL"@)
    &&& Some(c.pds_auth_token@) == env_value(vars, "PDS_AUTH_TOKEN"@)
    &&& Some(c.blossom_url@) == env_value(vars, "BLOSSOM_URL"@)
    &&& Some(c.database_url@) == env_value(vars, "DATABASE_URL"@)
    &&& Some(c.s3_endpoint@) == env_value(vars, "S3_ENDPOINT"@)
    &&& Some(c.s3_bucket@) == env_value(vars, "S3_BUCKET"@)
    &&& c.relay_source_name@ == env_or(vars, "RELAY_SOURCE_NAME"@, "nostr-relay"@)
    &&& c.health_bind_addr@ == env_or(vars, "HEALTH_BIND_ADDR"@, "0.0.0.0:8080"@)
    &&& Some(c.plc_directory_url@) == env_value(vars, "PLC_DIRECTORY_URL"@)
    &&& Some(c.handle_domain@) == env_value(vars, "HANDLE_DOMAIN"@)
    &&& strings_view(c.plc_recovery_rotation_did_keys@) == listed_entries(
        env_value(vars, "PLC_RECOVERY_ROTATION_DID_KEYS"@),
    )
    &&& c.account_email_domain@ == env_or(vars, "ACCOUNT_EMAIL_DOMAIN"@, "divine.video"@)
    &&& Some(c.provisioning_bearer_token@) == env_value(vars, "ATPROTO_PROVISIONING_TOKEN"@)
    &&& c.video_service_url@ == env_or(vars, "VIDEO_SERVICE_URL"@, "https://video.bsky.app"@)
    &&& c.video_service_enabled == env_flag(vars, "VIDEO_SERVICE_ENABLED"@)
    &&& c.video_service_poll_timeout_secs == env_u64(vars, "VIDEO_SERVICE_POLL_TIMEOUT_SECS"@, 120)
    &&& c.video_service_poll_interval_ms == env_u64(vars, "VIDEO_SERVICE_POLL_INTERVAL_MS"@, 5000)
    &&& c.watchdog_enabled == env_flag(vars, "WATCHDOG_ENABLED"@)
    &&& c.watchdog_interval_secs == env_u64(vars, "WATCHDOG_INTERVAL_SECS"@, 30)
}

impl BridgeConfig {
    /// The bridge configuration from a snapshot of the environment.
    pub fn from_vars(vars: &Vec<(String, String)>) -> (res: Result<BridgeConfig, String>)
        ensures
            res is Err <==> bridge_config_error(vars@) is Some,
            res matches Err(m) ==> bridge_config_error(vars@) == Some(m@),
            res matches Ok(c) ==> bridge_config_of(c, vars@),
    {
        let relay_url = env_required(vars, "RELAY_URL", "RELAY_URL must be set")?;
        let pds_url = env_required(vars, "PDS_URL", "PDS_URL must be set")?;
        let pds_auth_token = env_required(vars, "PDS_AUTH_TOKEN", "PDS_AUTH_TOKEN must be set")?;
        let blossom_url = env_required(vars, "BLOSSOM_URL", "BLOSSOM_URL must be set")?;
        let database_url = env_required(vars, "DATABASE_URL", "DATABASE_URL must be set")?;
        let s3_endpoint = env_required(vars, "S3_ENDPOINT", "S3_ENDPOINT must be set")?;
        let s3_bucket = env_required(vars, "S3_BUCKET", "S3_BUCKET must be set")?;
        let relay_source_name = env_or_default(vars, "RELAY_SOURCE_NAME", "nostr-relay");
        let health_bind_addr = env_or_default(vars, "HEALTH_BIND_ADDR", "0.0.0.0:8080");
        let plc_directory_url = env_required(vars, "PLC_DIRECTORY_URL", "PLC_DIRECTORY_URL must be set")?;
        let handle_domain = env_required(vars, "HANDLE_DOMAIN", "HANDLE_DOMAIN must be set")?;
        let keys_value = env_var(vars, "PLC_RECOVERY_ROTATION_DID_KEYS");
        let plc_recovery_rotation_did_keys = match keys_value {
            Some(v) => parse_recovery_rotation_did_keys(Some(v.as_str())),
            None => parse_recovery_rotation_did_keys(None),
        };
        let plc_recovery_rotation_did_keys = match plc_recovery_rotation_did_keys {
            Ok(k) => k,
            Err(e) => return Err(e.message()),
        };
        let account_email_domain = env_or_default(vars, "ACCOUNT_EMAIL_DOMAIN", "divine.video");
        let provisioning_bearer_token = env_required(
            vars,
            "ATPROTO_PROVISIONING_TOKEN",
            "ATPROTO_PROVISIONING_TOKEN must be set",
        )?;
        Ok(
            BridgeConfig {
                relay_url,
                pds_url,
                pds_auth_token,
                blossom_url,
                database_url,
                s3_endpoint,
                s3_bucket,
                relay_source_name,
                health_bind_addr,
                plc_directory_url,
                handle_domain,
                plc_recovery_rotation_did_keys,
                account_email_domain,
                provisioning_bearer_token,
                video_service_url: env_or_default(vars, "VIDEO_SERVICE_URL", "https://video.bsky.app"),
                video_service_enabled: env_flag_set(vars, "VIDEO_SERVICE_ENABLED"),
                video_service_poll_timeout_secs: env_number(vars, "VIDEO_SERVICE_POLL_TIMEOUT_SECS", 120),
                video_service_poll_interval_ms: env_number(vars, "VIDEO_SERVICE_POLL_INTERVAL_MS", 5000),
                watchdog_enabled: env_flag_set(vars, "WATCHDOG_ENABLED"),
                watchdog_interval_secs: env_number(vars, "WATCHDOG_INTERVAL_SECS", 30),
            },
        )
    }
}

impl IndexerConfig {
    /// The indexer configuration from a snapshot of the environment:
    /// `DATABASE_URL` and `DIVINE_PDS_URL` are required; one-shot runs are the
    /// default unless `DIVINE_INDEXER_ONESHOT` is `false`.
    pub fn from_vars(vars: &Vec<(String, String)>) -> (res: Result<IndexerConfig, String>)
        ensures
            env_value(vars@, "DATABASE_URL"@) is None ==> (res matches Err(m) && m@ == "DATABASE_URL is required"@),
            env_value(vars@, "DATABASE_URL"@) is Some && env_value(vars@, "DIVINE_PDS_URL"@) is None ==> (res matches Err(
                m,
            ) && m@ == "DIVINE_PDS_URL is required"@),
            res matches Ok(c) ==> Some(c.database_url@) == env_value(vars@, "DATABASE_URL"@) && Some(c.pds_base_url@)
                == env_value(vars@, "DIVINE_PDS_URL"@) && c.relay_url@ == env_or(
                vars@,
                "DIVINE_RELAY_URL"@,
                "ws://127.0.0.1:3001"@,
            ) && c.oneshot == (env_value(vars@, "DIVINE_INDEXER_ONESHOT"@) != Some("false"@)),
            env_value(vars@, "DATABASE_URL"@) is Some && env_value(vars@, "DIVINE_PDS_URL"@) is Some ==> res is Ok,
    {
        let database_url = env_required(vars, "DATABASE_URL", "DATABASE_URL is required")?;
        let pds_base_url = env_required(vars, "DIVINE_PDS_URL", "DIVINE_PDS_URL is required")?;
        let relay_url = env_or_default(vars, "DIVINE_RELAY_URL", "ws://127.0.0.1:3001");
        proof {
            reveal_strlit("false");
        }
        let oneshot = match env_var(vars, "DIVINE_INDEXER_ONESHOT") {
            Some(v) => !str_equal(v.as_str(), "false"),
            None => true,
        };
        Ok(IndexerConfig { database_url, pds_base_url, relay_url, oneshot })
    }
}

impl AppviewConfig {
    /// The AppView configuration from a snapshot of the environment:
    /// `DATABASE_URL` is required.
    pub fn from_vars(vars: &Vec<(String, String)>) -> (res: Result<AppviewConfig, String>)
        ensures
            env_value(vars@, "DATABASE_URL"@) is None ==> (res matches Err(m) && m@ == "DATABASE_URL is required"@),
            env_value(vars@, "DATABASE_URL"@) is Some ==> (res matches Ok(c) && c.bind_addr@ == env_or(
                vars@,
                "BIND_ADDR"@,
                "0.0.0.0:3004"@,
            ) && Some(c.database_url@) == env_value(vars@, "DATABASE_URL"@) && c.media_base_url@ == env_or(
                vars@,
                "APPVIEW_MEDIA_BASE_URL"@,
                "http://127.0.0.1:3100"@,
            ) && opt_view(c.viewer_origin) == env_value(vars@, "VIEWER_ORIGIN"@)),
    {
        let bind_addr = env_or_default(vars, "BIND_ADDR", "0.0.0.0:3004");
        let database_url = env_required(vars, "DATABASE_URL", "DATABASE_URL is required")?;
        let media_base_url = env_or_default(vars, "APPVIEW_MEDIA_BASE_URL", "http://127.0.0.1:3100");
        let viewer_origin = env_var(vars, "VIEWER_ORIGIN");
        Ok(AppviewConfig { bind_addr, database_url, media_base_url, viewer_origin })
    }
}

} // verus!
