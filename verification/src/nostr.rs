//! Nostr relay subscriptions: filters, the replay cursor, and relay
//! messages (NIP-01 `EVENT`, `EOSE`, `NOTICE`).
//!
//! The WebSocket is the caller's: frames arrive here as text and are read
//! here, one at a time; `REQ` frames are written here.

use vstd::prelude::*;
use crate::chars::{push_all, str_equal};
use crate::event::NostrEvent;
use crate::json::{
    as_i64, as_string, as_u64, get_member, i64_of, json_compact_text, json_text_value, member, parse_json_text, string_of,
    u64_of, write_json_text, JsonNumber, JsonTree, JsonValue,
};
use crate::pipeline::ProcessResult;

verus! {

broadcast use vstd::seq_lib::group_seq_properties;

/// Filter used when subscribing to a relay.
#[derive(Debug, Clone, PartialEq, Eq)]
pub struct NostrFilter {
    pub kinds: Vec<u64>,
    pub authors: Option<Vec<String>>,
    pub since: Option<i64>,
}

impl NostrFilter {
    /// The NIP-71 video + deletion filter.
    pub fn nip71_video() -> (f: NostrFilter)
        ensures
            f.kinds@ == seq![34235u64, 34236u64, 5u64],
            f.authors is None,
            f.since is None,
    {
        NostrFilter { kinds: vec![34235, 34236, 5], authors: None, since: None }
    }
}

/// The filter the bridge runtime subscribes with: profiles, deletions and
/// both video kinds.
pub fn runtime_filter() -> (f: NostrFilter)
    ensures
        f.kinds@ == seq![0u64, 5u64, 34235u64, 34236u64],
        f.authors is None,
        f.since is None,
{
    NostrFilter { kinds: vec![0, 5, 34235, 34236], authors: None, since: None }
}

/// A copy of a list of strings.
fn copy_strings(v: &Vec<String>) -> (r: Vec<String>)
    ensures
        r@ == v@,
{
    let mut r: Vec<String> = Vec::new();
    let mut i: usize = 0;
    while i < v.len()
        invariant
            i <= v@.len(),
            r@ == v@.take(i as int),
        decreases v.len() - i,
    {
        r.push(v[i].clone());
        i += 1;
        assert(r@ =~= v@.take(i as int));
    }
    assert(v@.take(v@.len() as int) =~= v@);
    r
}

/// Consumes events from a Nostr relay and remembers how far it got.
pub struct NostrConsumer {
    pub relay_url: String,
    /// Timestamp of the last successfully processed event (Unix seconds).
    pub last_seen_timestamp: Option<i64>,
    /// Subscription id used for the current session.
    pub subscription_id: String,
}

impl NostrConsumer {
    /// The subscription id of the session.
    pub open spec fn subscription(&self) -> Seq<char> {
        self.subscription_id@
    }

    pub fn new(relay_url: String) -> (c: NostrConsumer)
        ensures
            c.relay_url == relay_url,
            c.last_seen_timestamp is None,
            c.subscription() == "divine-bridge-0"@,
    {
        NostrConsumer { relay_url, last_seen_timestamp: None, subscription_id: "divine-bridge-0".to_string() }
    }

    pub fn subscription_id(&self) -> (s: &str)
        ensures
            s@ == self.subscription(),
    {
        self.subscription_id.as_str()
    }

    /// The filter of the next `REQ`: `filter`, with `since` moved up to the
    /// cursor once an event has been processed.
    pub fn req_filter(&self, filter: &NostrFilter) -> (f: NostrFilter)
        ensures
            f.kinds@ == filter.kinds@,
            f.authors is None <==> filter.authors is None,
            f.authors matches Some(a) ==> (filter.authors matches Some(b) && a@ == b@),
            f.since == match self.last_seen_timestamp {
                Some(ts) => Some(ts),
                None => filter.since,
            },
    {
        let mut kinds: Vec<u64> = Vec::new();
        let mut i: usize = 0;
        while i < filter.kinds.len()
            invariant
                i <= filter.kinds@.len(),
                kinds@ == filter.kinds@.take(i as int),
            decreases filter.kinds.len() - i,
        {
            kinds.push(filter.kinds[i]);
            i += 1;
            assert(kinds@ =~= filter.kinds@.take(i as int));
        }
        assert(filter.kinds@.take(filter.kinds@.len() as int) =~= filter.kinds@);
        let authors = match &filter.authors {
            Some(a) => Some(copy_strings(a)),
            None => None,
        };
        let since = match self.last_seen_timestamp {
            Some(ts) => Some(ts),
            None => filter.since,
        };
        NostrFilter { kinds, authors, since }
    }

    /// Record what the event callback answered for an event created at
    /// `created_at`: the cursor moves only on acknowledgement; a failure is
    /// passed on.
    pub fn record_event_outcome(&mut self, created_at: i64, outcome: Result<(), String>) -> (res: Result<
        (),
        String,
    >)
        ensures
            final(self).relay_url == old(self).relay_url,
            final(self).subscription() == old(self).subscription(),
            outcome is Ok ==> res is Ok && final(self).last_seen_timestamp == Some(created_at),
            outcome matches Err(c) ==> final(self).last_seen_timestamp == old(self).last_seen_timestamp
                && (res matches Err(m) && m@ == "event processing callback failed: "@ + c@),
    {
        match outcome {
            Ok(()) => {
                self.last_seen_timestamp = Some(created_at);
                Ok(())
            },
            Err(c) => {
                let mut m = "event processing callback failed: ".to_string();
                push_all(&mut m, c.as_str());
                Err(m)
            },
        }
    }

    /// Record the pipeline's result for an event created at `created_at`:
    /// every result but an error moves the cursor.
    pub fn record_process_result(&mut self, created_at: i64, result: &ProcessResult)
        ensures
            final(self).relay_url == old(self).relay_url,
            final(self).subscription() == old(self).subscription(),
            final(self).last_seen_timestamp == match result {
                ProcessResult::Error { .. } => old(self).last_seen_timestamp,
                _ => Some(created_at),
            },
    {
        match result {
            ProcessResult::Error { .. } => {},
            _ => {
                self.last_seen_timestamp = Some(created_at);
            },
        }
    }
}

// ---------------------------------------------------------------------------
// Relay messages
// ---------------------------------------------------------------------------

/// The JSON of a filter: its `kinds`, and `authors` and `since` only when
/// present.
pub open spec fn filter_tree(kinds: Seq<u64>, authors: Option<Seq<Seq<char>>>, since: Option<i64>) -> JsonTree {
    let kinds_member = seq![("kinds"@, JsonTree::Array(kinds.map_values(|k: u64| JsonTree::Number(JsonNumber::Unsigned(k)))))];
    let authors_member = match authors {
        Some(a) => seq![("authors"@, JsonTree::Array(a.map_values(|x: Seq<char>| JsonTree::Str(x))))],
        None => Seq::empty(),
    };
    let since_member = match since {
        Some(t) => seq![("since"@, JsonTree::Number(JsonNumber::Signed(t)))],
        None => Seq::empty(),
    };
    JsonTree::Object(kinds_member + authors_member + since_member)
}

/// The texts of an optional list of strings.
pub open spec fn authors_view(a: Option<Vec<String>>) -> Option<Seq<Seq<char>>> {
    match a {
        Some(v) => Some(v@.map_values(|x: String| x@)),
        None => None,
    }
}

/// The `REQ` frame of a subscription: `["REQ", id, filter]`.
pub open spec fn req_tree(subscription_id: Seq<char>, filter: JsonTree) -> JsonTree {
    JsonTree::Array(seq![JsonTree::Str("REQ"@), JsonTree::Str(subscription_id), filter])
}

/// The JSON value of a filter.
fn filter_value(f: &NostrFilter) -> (v: JsonValue)
    ensures
        v@ == filter_tree(f.kinds@, authors_view(f.authors), f.since),
{
    let mut kinds: Vec<JsonValue> = Vec::new();
    let mut i: usize = 0;
    while i < f.kinds.len()
        invariant
            i <= f.kinds@.len(),
            kinds@.len() == i,
            forall|j: int| 0 <= j < i ==> (#[trigger] kinds@[j])@ == JsonTree::Number(JsonNumber::Unsigned(f.kinds@[j])),
        decreases f.kinds.len() - i,
    {
        kinds.push(JsonValue::Number(JsonNumber::Unsigned(f.kinds[i])));
        i += 1;
    }
    let kinds_v = JsonValue::Array(kinds);
    assert(kinds_v@->Array_0 =~= f.kinds@.map_values(|k: u64| JsonTree::Number(JsonNumber::Unsigned(k))));
    let mut fields: Vec<(String, JsonValue)> = Vec::new();
    fields.push(("kinds".to_string(), kinds_v));
    let ghost kinds_t = fields@[0].1@;
    match &f.authors {
        Some(a) => {
            let mut items: Vec<JsonValue> = Vec::new();
            let mut j: usize = 0;
            while j < a.len()
                invariant
                    j <= a@.len(),
                    items@.len() == j,
                    forall|k: int| 0 <= k < j ==> (#[trigger] items@[k])@ == JsonTree::Str(a@[k]@),
                decreases a.len() - j,
            {
                items.push(JsonValue::String(a[j].clone()));
                j += 1;
            }
            let av = JsonValue::Array(items);
            assert(av@->Array_0 =~= a@.map_values(|x: String| x@).map_values(|x: Seq<char>| JsonTree::Str(x)));
            fields.push(("authors".to_string(), av));
        },
        None => {},
    }
    let ghost before_since = fields@;
    match f.since {
        Some(t) => {
            fields.push(("since".to_string(), JsonValue::Number(JsonNumber::Signed(t))));
        },
        None => {},
    }
    proof {
        reveal_strlit("kinds");
        reveal_strlit("authors");
        reveal_strlit("since");
    }
    let v = JsonValue::Object(fields);
    proof {
        let t = filter_tree(f.kinds@, authors_view(f.authors), f.since)->Object_0;
        assert(v@->Object_0 =~= t) by {
            assert(v@->Object_0.len() == t.len());
            assert forall|k: int| 0 <= k < t.len() implies v@->Object_0[k] == t[k] by {
                if k == 0 {
                    assert(v@->Object_0[0] == (fields@[0].0@, fields@[0].1@));
                } else {
                    assert(v@->Object_0[k] == (fields@[k].0@, fields@[k].1@));
                }
            }
        }
    }
    v
}

impl NostrConsumer {
    /// The `REQ` frame of the next subscription: the filter with `since`
    /// moved up to the cursor once an event has been processed.
    pub fn build_req(&self, filter: &NostrFilter) -> (req: String)
        ensures
            req@ == json_compact_text(
                req_tree(
                    self.subscription(),
                    filter_tree(
                        filter.kinds@,
                        authors_view(filter.authors),
                        match self.last_seen_timestamp {
                            Some(ts) => Some(ts),
                            None => filter.since,
                        },
                    ),
                ),
            ),
    {
        let f = self.req_filter(filter);
        let fv = filter_value(&f);
        proof {
            assert(authors_view(f.authors) == authors_view(filter.authors)) by {
                if let Some(a) = f.authors {
                    let b = filter.authors->0;
                    assert(a@.map_values(|x: String| x@) =~= b@.map_values(|x: String| x@));
                }
            }
        }
        let mut items: Vec<JsonValue> = Vec::new();
        items.push(JsonValue::String("REQ".to_string()));
        items.push(JsonValue::String(self.subscription_id.clone()));
        items.push(fv);
        proof {
            reveal_strlit("REQ");
        }
        let v = JsonValue::Array(items);
        assert(items@[0]@ == JsonTree::Str("REQ"@));
        assert(items@[1]@ == JsonTree::Str(self.subscription()));
        assert(v@->Array_0 =~= req_tree(self.subscription(), filter_tree(f.kinds@, authors_view(f.authors), f.since))->Array_0);
        write_json_text(&v)
    }
}

/// What a session does with one relay frame: hand an event to the pipeline,
/// or pass over anything else (end of stored events, a notice, an unknown or
/// unreadable frame).
pub enum FrameStep {
    Deliver { event: NostrEvent },
    Skip,
}

/// The step for a frame: deliver its event when it reads as an `EVENT`
/// message, else skip it.
pub fn frame_step(raw: &str) -> (step: FrameStep)
    ensures
        exists|m: Result<RelayMessage, RelayParseError>|
            #[trigger] relay_message_of(raw@, json_text_value(raw@), m) && match m {
                Ok(RelayMessage::Event { event, .. }) => step matches FrameStep::Deliver { event: e } && e == event,
                _ => step is Skip,
            },
{
    let m = parse_relay_message(raw);
    match m {
        Ok(RelayMessage::Event { event, .. }) => FrameStep::Deliver { event },
        _ => FrameStep::Skip,
    }
}

/// Messages a relay sends.
#[derive(Debug, Clone, PartialEq, Eq)]
pub enum RelayMessage {
    Event { subscription_id: String, event: NostrEvent },
    Eose { subscription_id: String },
    Notice(String),
    Unknown(String),
}

/// Why a relay frame could not be read.
#[derive(Debug, Clone, Copy, PartialEq, Eq, Structural)]
pub enum RelayParseError {
    InvalidJson,
    NotArray,
    MissingType,
    MissingSubscriptionId,
    MissingEvent,
    InvalidEvent,
    MissingEoseSubscriptionId,
}

/// The text of each relay frame error.
pub open spec fn relay_parse_error_text(e: RelayParseError) -> Seq<char> {
    match e {
        RelayParseError::InvalidJson => "invalid JSON from relay"@,
        RelayParseError::NotArray => "expected JSON array"@,
        RelayParseError::MissingType => "missing message type"@,
        RelayParseError::MissingSubscriptionId => "missing subscription id"@,
        RelayParseError::MissingEvent => "missing event object"@,
        RelayParseError::InvalidEvent => "invalid event object"@,
        RelayParseError::MissingEoseSubscriptionId => "missing subscription id in EOSE"@,
    }
}

impl RelayParseError {
    pub fn message(&self) -> (s: String)
        ensures
            s@ == relay_parse_error_text(*self),
    {
        match self {
            RelayParseError::InvalidJson => "invalid JSON from relay".to_string(),
            RelayParseError::NotArray => "expected JSON array".to_string(),
            RelayParseError::MissingType => "missing message type".to_string(),
            RelayParseError::MissingSubscriptionId => "missing subscription id".to_string(),
            RelayParseError::MissingEvent => "missing event object".to_string(),
            RelayParseError::InvalidEvent => "invalid event object".to_string(),
            RelayParseError::MissingEoseSubscriptionId => "missing subscription id in EOSE".to_string(),
        }
    }
}

/// A JSON array of strings.
pub open spec fn is_string_array(v: JsonValue) -> bool {
    v matches JsonValue::Array(items) && forall|j: int|
        0 <= j < items@.len() ==> #[trigger] items@[j] is String
}

/// The strings of a JSON array of strings.
pub open spec fn string_array_view(v: JsonValue) -> Seq<Seq<char>> {
    match v {
        JsonValue::Array(items) => Seq::new(
            items@.len(),
            |j: int|
                match items@[j] {
                    JsonValue::String(s) => s@,
                    _ => Seq::empty(),
                },
        ),
        _ => Seq::empty(),
    }
}

/// A JSON array of arrays of strings (an event's `tags`).
pub open spec fn tags_ok(v: Option<JsonValue>) -> bool {
    v matches Some(JsonValue::Array(rows)) && forall|i: int|
        0 <= i < rows@.len() ==> is_string_array(#[trigger] rows@[i])
}

/// The tags of a JSON array of arrays of strings.
pub open spec fn tags_of(v: Option<JsonValue>) -> Seq<Seq<Seq<char>>> {
    match v {
        Some(JsonValue::Array(rows)) => Seq::new(rows@.len(), |i: int| string_array_view(rows@[i])),
        _ => Seq::empty(),
    }
}

/// A JSON object that reads as a Nostr event: each field present with its
/// type (unknown members are ignored).
pub open spec fn event_json_ok(v: JsonValue) -> bool {
    &&& string_of(member(v, "id"@)) is Some
    &&& string_of(member(v, "pubkey"@)) is Some
    &&& i64_of(member(v, "created_at"@)) is Some
    &&& u64_of(member(v, "kind"@)) is Some
    &&& tags_ok(member(v, "tags"@))
    &&& string_of(member(v, "content"@)) is Some
    &&& string_of(member(v, "sig"@)) is Some
}

/// The event a JSON object reads as.
pub open spec fn event_of_json(e: NostrEvent, v: JsonValue) -> bool {
    &&& string_of(member(v, "id"@)) == Some(e.id@)
    &&& string_of(member(v, "pubkey"@)) == Some(e.pubkey@)
    &&& i64_of(member(v, "created_at"@)) == Some(e.created_at)
    &&& u64_of(member(v, "kind"@)) == Some(e.kind)
    &&& e.tags_view() == tags_of(member(v, "tags"@))
    &&& string_of(member(v, "content"@)) == Some(e.content@)
    &&& string_of(member(v, "sig"@)) == Some(e.sig@)
}

/// An event read from JSON keeps its tags exactly: it has one tag per row of
/// the JSON `tags` array, tag `i` has as many strings as row `i`, and its
/// `j`-th string is the `j`-th string of row `i`.
pub proof fn event_tags_are_the_json_rows(e: NostrEvent, v: JsonValue)
    requires
        event_json_ok(v),
        event_of_json(e, v),
    ensures
        member(v, "tags"@) matches Some(JsonValue::Array(rows)) && e.tags_view().len() == rows@.len(),
        forall|i: int|
            0 <= i < e.tags_view().len() ==> (member(v, "tags"@)->0->Array_0@[i] matches JsonValue::Array(
                items,
            ) && (#[trigger] e.tags_view()[i]).len() == items@.len()),
        forall|i: int, j: int|
            0 <= i < e.tags_view().len() && 0 <= j < e.tags_view()[i].len() ==> (member(
                v,
                "tags"@,
            )->0->Array_0@[i]->Array_0@[j] matches JsonValue::String(s) && #[trigger] e.tags_view()[i][j]
                == s@),
{
    let rows = member(v, "tags"@)->0->Array_0@;
    assert forall|i: int| 0 <= i < e.tags_view().len() implies (rows[i] matches JsonValue::Array(items) && (
    #[trigger] e.tags_view()[i]).len() == items@.len()) by {
        assert(is_string_array(rows[i]));
        assert(e.tags_view()[i] == string_array_view(rows[i]));
    }
    assert forall|i: int, j: int| 0 <= i < e.tags_view().len() && 0 <= j < e.tags_view()[i].len() implies (
    rows[i]->Array_0@[j] matches JsonValue::String(s) && #[trigger] e.tags_view()[i][j] == s@) by {
        assert(is_string_array(rows[i]));
        assert(e.tags_view()[i] == string_array_view(rows[i]));
        assert(rows[i]->Array_0@[j] is String);
    }
}

/// An event frame from a relay carries the tags of its third element, the
/// event object, exactly: one tag per row of the object's `tags` array, each
/// with the row's strings in order.
pub proof fn relay_event_keeps_json_tags(
    raw: Seq<char>,
    parsed: Option<JsonValue>,
    subscription_id: String,
    event: NostrEvent,
)
    requires
        relay_message_of(raw, parsed, Ok(RelayMessage::Event { subscription_id, event })),
    ensures
        parsed matches Some(JsonValue::Array(arr)) && arr@.len() >= 3,
        member(parsed->0->Array_0@[2], "tags"@) matches Some(JsonValue::Array(rows))
            && event.tags_view().len() == rows@.len(),
        forall|i: int|
            0 <= i < event.tags_view().len() ==> (member(parsed->0->Array_0@[2], "tags"@)->0->Array_0@[i] matches JsonValue::Array(
                items,
            ) && (#[trigger] event.tags_view()[i]).len() == items@.len()),
        forall|i: int, j: int|
            0 <= i < event.tags_view().len() && 0 <= j < event.tags_view()[i].len() ==> (member(
                parsed->0->Array_0@[2],
                "tags"@,
            )->0->Array_0@[i]->Array_0@[j] matches JsonValue::String(s) && #[trigger] event.tags_view()[i][j]
                == s@),
{
    event_tags_are_the_json_rows(event, parsed->0->Array_0@[2]);
}

/// The strings of a JSON array of strings, if it is one.
fn string_array(v: &JsonValue) -> (res: Option<Vec<String>>)
    ensures
        res is Some <==> is_string_array(*v),
        res matches Some(r) ==> r.deep_view() == string_array_view(*v),
{
    match v {
        JsonValue::Array(items) => {
            let mut r: Vec<String> = Vec::new();
            let mut i: usize = 0;
            while i < items.len()
                invariant
                    i <= items@.len(),
                    r@.len() == i,
                    forall|j: int| 0 <= j < i ==> #[trigger] items@[j] is String,
                    forall|j: int| 0 <= j < i ==> (#[trigger] r@[j])@ == (match items@[j] {
                        JsonValue::String(s) => s@,
                        _ => Seq::<char>::empty(),
                    }),
                    *v == JsonValue::Array(*items),
                decreases items.len() - i,
            {
                match &items[i] {
                    JsonValue::String(s) => {
                        r.push(s.clone());
                    },
                    _ => {
                        return None;
                    },
                }
                i += 1;
            }
            assert(r.deep_view() =~= string_array_view(*v));
            Some(r)
        },
        _ => None,
    }
}

/// The tags of an event object's `tags` member.
fn tags_from_json(v: Option<&JsonValue>) -> (res: Option<Vec<Vec<String>>>)
    ensures
        res is Some <==> tags_ok(match v {
            Some(x) => Some(*x),
            None => None,
        }),
        res matches Some(r) ==> r.deep_view() == tags_of(match v {
            Some(x) => Some(*x),
            None => None,
        }),
{
    let ghost vv = match v {
        Some(x) => Some(*x),
        None => None,
    };
    match v {
        Some(JsonValue::Array(rows)) => {
            let mut r: Vec<Vec<String>> = Vec::new();
            let mut i: usize = 0;
            while i < rows.len()
                invariant
                    vv == Some(JsonValue::Array(*rows)),
                    vv == (match v {
                        Some(x) => Some(*x),
                        None => None,
                    }),
                    i <= rows@.len(),
                    r@.len() == i,
                    forall|j: int| 0 <= j < i ==> is_string_array(#[trigger] rows@[j]),
                    forall|j: int| 0 <= j < i ==> (#[trigger] r@[j]).deep_view() == string_array_view(rows@[j]),
                decreases rows.len() - i,
            {
                match string_array(&rows[i]) {
                    Some(row) => {
                        r.push(row);
                    },
                    None => {
                        assert(!is_string_array(rows@[i as int]));
                        assert(!tags_ok(vv)) by {
                            if tags_ok(vv) {
                                let ghost rs = match vv {
                                    Some(JsonValue::Array(x)) => x,
                                    _ => *rows,
                                };
                                assert(rs == *rows);
                                assert(is_string_array(rs@[i as int]));
                            }
                        }
                        return None;
                    },
                }
                i += 1;
            }
            assert(r.deep_view() =~= tags_of(Some(JsonValue::Array(*rows))));
            Some(r)
        },
        _ => None,
    }
}

/// A string member of an object.
fn string_member(v: &JsonValue, key: &str) -> (res: Option<String>)
    ensures
        res is Some <==> string_of(member(*v, key@)) is Some,
        res matches Some(s) ==> string_of(member(*v, key@)) == Some(s@),
{
    match get_member(v, key) {
        Some(x) => as_string(x),
        None => None,
    }
}

/// Read a Nostr event from a JSON object.
pub fn event_from_json(v: &JsonValue) -> (res: Option<NostrEvent>)
    ensures
        res is Some <==> event_json_ok(*v),
        res matches Some(e) ==> event_of_json(e, *v),
{
    let id = string_member(v, "id");
    let pubkey = string_member(v, "pubkey");
    let created_at = match get_member(v, "created_at") {
        Some(x) => as_i64(x),
        None => None,
    };
    let kind = match get_member(v, "kind") {
        Some(x) => as_u64(x),
        None => None,
    };
    let tags = tags_from_json(get_member(v, "tags"));
    let content = string_member(v, "content");
    let sig = string_member(v, "sig");
    match (id, pubkey, created_at, kind, tags, content, sig) {
        (Some(id), Some(pubkey), Some(created_at), Some(kind), Some(tags), Some(content), Some(sig)) => {
            Some(NostrEvent { id, pubkey, created_at, kind, tags, content, sig })
        },
        _ => None,
    }
}

/// Element `i` of a JSON array value.
pub open spec fn element(items: Seq<JsonValue>, i: int) -> Option<JsonValue> {
    if 0 <= i < items.len() {
        Some(items[i])
    } else {
        None
    }
}

/// What a relay frame reads as: its JSON value (`None` when the text is not
/// JSON) must be an array whose first element names the message.
pub open spec fn relay_message_of(
    raw: Seq<char>,
    parsed: Option<JsonValue>,
    res: Result<RelayMessage, RelayParseError>,
) -> bool {
    match parsed {
        None => res == Err::<RelayMessage, RelayParseError>(RelayParseError::InvalidJson),
        Some(JsonValue::Array(arr)) => {
            let items = arr@;
            match string_of(element(items, 0)) {
                None => res == Err::<RelayMessage, RelayParseError>(RelayParseError::MissingType),
                Some(t) => if t == "EVENT"@ {
                    match string_of(element(items, 1)) {
                        None => res == Err::<RelayMessage, RelayParseError>(
                            RelayParseError::MissingSubscriptionId,
                        ),
                        Some(sub) => match element(items, 2) {
                            None => res == Err::<RelayMessage, RelayParseError>(
                                RelayParseError::MissingEvent,
                            ),
                            Some(ev) => if event_json_ok(ev) {
                                res matches Ok(RelayMessage::Event { subscription_id, event })
                                    && subscription_id@ == sub && event_of_json(event, ev)
                            } else {
                                res == Err::<RelayMessage, RelayParseError>(
                                    RelayParseError::InvalidEvent,
                                )
                            },
                        },
                    }
                } else if t == "EOSE"@ {
                    match string_of(element(items, 1)) {
                        None => res == Err::<RelayMessage, RelayParseError>(
                            RelayParseError::MissingEoseSubscriptionId,
                        ),
                        Some(sub) => res matches Ok(RelayMessage::Eose { subscription_id })
                            && subscription_id@ == sub,
                    }
                } else if t == "NOTICE"@ {
                    res matches Ok(RelayMessage::Notice(m)) && m@ == match string_of(element(items, 1)) {
                        Some(s) => s,
                        None => Seq::<char>::empty(),
                    }
                } else {
                    res matches Ok(RelayMessage::Unknown(r)) && r@ == raw
                },
            }
        },
        Some(_) => res == Err::<RelayMessage, RelayParseError>(RelayParseError::NotArray),
    }
}

/// A string element of an array.
fn string_element(items: &Vec<JsonValue>, i: usize) -> (res: Option<String>)
    ensures
        res is Some <==> string_of(element(items@, i as int)) is Some,
        res matches Some(s) ==> string_of(element(items@, i as int)) == Some(s@),
{
    if i < items.len() {
        as_string(&items[i])
    } else {
        None
    }
}

/// Read a relay frame: its text is read as JSON, then as a message.
pub fn parse_relay_message(raw: &str) -> (res: Result<RelayMessage, RelayParseError>)
    ensures
        relay_message_of(raw@, json_text_value(raw@), res),
{
    let parsed = parse_json_text(raw);
    relay_message_from_json(raw, parsed)
}

/// Read a relay frame given its text and its JSON value (`None` when the
/// text is not JSON).
pub fn relay_message_from_json(raw: &str, parsed: Option<JsonValue>) -> (res: Result<RelayMessage, RelayParseError>)
    ensures
        relay_message_of(raw@, parsed, res),
{
    let arr = match parsed {
        None => return Err(RelayParseError::InvalidJson),
        Some(JsonValue::Array(arr)) => arr,
        Some(_) => return Err(RelayParseError::NotArray),
    };
    let msg_type = match string_element(&arr, 0) {
        None => return Err(RelayParseError::MissingType),
        Some(t) => t,
    };
    if str_equal(msg_type.as_str(), "EVENT") {
        let sub = match string_element(&arr, 1) {
            None => return Err(RelayParseError::MissingSubscriptionId),
            Some(s) => s,
        };
        if arr.len() < 3 {
            return Err(RelayParseError::MissingEvent);
        }
        match event_from_json(&arr[2]) {
            None => Err(RelayParseError::InvalidEvent),
            Some(event) => Ok(RelayMessage::Event { subscription_id: sub, event }),
        }
    } else if str_equal(msg_type.as_str(), "EOSE") {
        match string_element(&arr, 1) {
            None => Err(RelayParseError::MissingEoseSubscriptionId),
            Some(s) => Ok(RelayMessage::Eose { subscription_id: s }),
        }
    } else if str_equal(msg_type.as_str(), "NOTICE") {
        match string_element(&arr, 1) {
            None => Ok(RelayMessage::Notice(String::new())),
            Some(s) => Ok(RelayMessage::Notice(s)),
        }
    } else {
        Ok(RelayMessage::Unknown(raw.to_string()))
    }
}

} // verus!
