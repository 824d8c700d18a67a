//! The Funnelcake REST API for live video-event ingest: the request of one
//! page of `GET {base}/videos/events`, and reading the page.
//!
//! HTTP and JSON text are the caller's; the body arrives as a `JsonValue`.

use vstd::prelude::*;
use crate::appview::strip_trailing_slashes;
use crate::chars::{char_vec, decimal_text, push_all, push_char, trim_chars, trim_seq, u64_to_decimal};
use crate::event::NostrEvent;
use crate::json::{get_member, member, JsonNumber, JsonValue};
use crate::nostr::{event_from_json, event_json_ok, event_of_json};
use crate::translator::{all_digits, digits_value, lemma_digit_step, lemma_digits_value_monotone};
use crate::xrpc::trim_trailing_slashes;

verus! {

broadcast use vstd::seq_lib::group_seq_properties;

/// One page of video events, newest first.
pub struct VideoEventsPage {
    pub events: Vec<NostrEvent>,
    /// Cursor (Unix seconds) to pass as `before` for the next older page.
    pub next_cursor: Option<i64>,
    /// Whether older pages exist.
    pub has_more: bool,
}

/// `{base without trailing /}/videos/events`.
pub fn video_events_endpoint(base_url: &str) -> (u: String)
    ensures
        u@ == strip_trailing_slashes(base_url@) + "/videos/events"@,
{
    let mut u = trim_trailing_slashes(base_url);
    push_all(&mut u, "/videos/events");
    u
}

/// Decimal text of an `i64`, with a leading `-` when negative.
pub open spec fn i64_text(n: i64) -> Seq<char> {
    if n < 0 {
        seq!['-'] + decimal_text((-n) as nat)
    } else {
        decimal_text(n as nat)
    }
}

pub fn i64_to_decimal(n: i64) -> (s: String)
    ensures
        s@ == i64_text(n),
{
    if n < 0 {
        let magnitude: u64 = if n == i64::MIN {
            0x8000_0000_0000_0000u64
        } else {
            (-n) as u64
        };
        let digits = u64_to_decimal(magnitude);
        let mut s = String::new();
        push_char(&mut s, '-');
        push_all(&mut s, digits.as_str());
        s
    } else {
        u64_to_decimal(n as u64)
    }
}

/// The query of one page: newest first, of one kind, up to `limit`, older
/// than `before` when given.
pub fn video_events_query(kind: u64, before: Option<i64>, limit: u32) -> (q: Vec<(String, String)>)
    ensures
        q@.len() == if before is Some {
            4int
        } else {
            3int
        },
        q@[0].0@ == "sort"@ && q@[0].1@ == "recent"@,
        q@[1].0@ == "kind"@ && q@[1].1@ == decimal_text(kind as nat),
        q@[2].0@ == "limit"@ && q@[2].1@ == decimal_text(limit as nat),
        before matches Some(b) ==> q@[3].0@ == "before"@ && q@[3].1@ == i64_text(b),
{
    let mut q: Vec<(String, String)> = Vec::new();
    q.push(("sort".to_string(), "recent".to_string()));
    q.push(("kind".to_string(), u64_to_decimal(kind)));
    q.push(("limit".to_string(), u64_to_decimal(limit as u64)));
    if let Some(b) = before {
        q.push(("before".to_string(), i64_to_decimal(b)));
    }
    q
}

/// The error of a refused page request.
pub fn video_events_failure(status: u16, body: &str) -> (m: String)
    ensures
        m@ == "videos/events failed ("@ + decimal_text(status as nat) + "): "@ + body@,
{
    let mut m = "videos/events failed (".to_string();
    let code = u64_to_decimal(status as u64);
    push_all(&mut m, code.as_str());
    push_all(&mut m, "): ");
    push_all(&mut m, body);
    m
}

/// `str::parse::<i64>`: an optional sign and one or more ASCII digits whose
/// value fits.
pub open spec fn parse_i64_spec(s: Seq<char>) -> Option<i64> {
    let negative = s.len() > 0 && s[0] == '-';
    let body = signed_body(s);
    if body.len() > 0 && all_digits(body) {
        if negative && digits_value(body) <= 0x8000_0000_0000_0000 {
            Some((0 - digits_value(body)) as i64)
        } else if !negative && digits_value(body) <= i64::MAX {
            Some(digits_value(body) as i64)
        } else {
            None
        }
    } else {
        None
    }
}

/// The digits of a signed number: the text after an optional sign.
pub open spec fn signed_body(s: Seq<char>) -> Seq<char> {
    if s.len() > 0 && (s[0] == '-' || s[0] == '+') {
        s.drop_first()
    } else {
        s
    }
}

/// Parse a decimal `i64`.
pub fn parse_i64(s: &str) -> (res: Option<i64>)
    ensures
        res == parse_i64_spec(s@),
{
    let v = char_vec(s);
    let negative = v.len() > 0 && v[0] == '-';
    let start: usize = if v.len() > 0 && (v[0] == '-' || v[0] == '+') {
        1
    } else {
        0
    };
    let ghost body = signed_body(s@);
    assert(body =~= v@.skip(start as int));
    if start == v.len() {
        return None;
    }
    let limit: u64 = if negative {
        0x8000_0000_0000_0000u64
    } else {
        0x7fff_ffff_ffff_ffffu64
    };
    let mut value: u64 = 0;
    let mut j = start;
    while j < v.len()
        invariant
            start <= j <= v@.len(),
            v@ == s@,
            body == signed_body(s@),
            body == v@.skip(start as int),
            negative == (s@.len() > 0 && s@[0] == '-'),
            limit == (if negative { 0x8000_0000_0000_0000u64 } else { 0x7fff_ffff_ffff_ffffu64 }),
            all_digits(body.take(j - start)),
            value == digits_value(body.take(j - start)),
            value <= limit,
        decreases v.len() - j,
    {
        let c = v[j];
        assert(body[(j - start) as int] == c);
        if !('0' <= c && c <= '9') {
            assert(!all_digits(body));
            return None;
        }
        let d = ((c as u32) - ('0' as u32)) as u64;
        assert(body.take(j + 1 - start).drop_last() =~= body.take(j - start));
        proof {
            lemma_digit_step(value as int, d as int, limit as int);
        }
        if value > (limit - d) / 10 {
            proof {
                assert(digits_value(body.take(j + 1 - start)) == value * 10 + d);
                if all_digits(body) {
                    lemma_digits_value_monotone(body, j + 1 - start);
                }
            }
            return None;
        }
        value = value * 10 + d;
        j += 1;
    }
    assert(body.take(j - start) =~= body);
    if negative {
        if value == 0x8000_0000_0000_0000u64 {
            Some(i64::MIN)
        } else {
            Some(-(value as i64))
        }
    } else {
        Some(value as i64)
    }
}

/// The `next_cursor` of a page: an `i64` number, or text that is one once
/// trimmed; absent or `null` is no cursor; anything else is unreadable.
pub open spec fn cursor_of(v: Option<JsonValue>) -> Option<Option<i64>> {
    match v {
        None => Some(None),
        Some(JsonValue::Null) => Some(None),
        Some(JsonValue::Number(JsonNumber::Signed(i))) => Some(Some(i)),
        Some(JsonValue::Number(JsonNumber::Unsigned(u))) => if u <= i64::MAX {
            Some(Some(u as i64))
        } else {
            None
        },
        Some(JsonValue::String(s)) => match parse_i64_spec(trim_seq(s@)) {
            Some(i) => Some(Some(i)),
            None => None,
        },
        _ => None,
    }
}

/// A `videos` entry: an object whose `event` member reads as an event.
pub open spec fn video_entry_ok(item: JsonValue) -> bool {
    &&& item is Object
    &&& member(item, "event"@) matches Some(e) && event_json_ok(e)
}

/// A `videos` array whose entries are objects with an `event` member that
/// reads as an event; an absent member is no videos.
pub open spec fn videos_ok(v: Option<JsonValue>) -> bool {
    match v {
        None => true,
        Some(JsonValue::Array(items)) => entries_ok(items@),
        _ => false,
    }
}

/// Every entry reads as a video.
pub open spec fn entries_ok(items: Seq<JsonValue>) -> bool {
    forall|i: int| 0 <= i < items.len() ==> video_entry_ok(#[trigger] items[i])
}

/// A page body reads when it is an object whose `videos`, `next_cursor`
/// and `has_more` members read (each may be absent).
pub open spec fn page_ok(body: JsonValue) -> bool {
    &&& body is Object
    &&& videos_ok(member(body, "videos"@))
    &&& cursor_of(member(body, "next_cursor"@)) is Some
    &&& match member(body, "has_more"@) {
        None => true,
        Some(JsonValue::Bool(_)) => true,
        _ => false,
    }
}

/// The page a body reads as.
pub open spec fn page_of(p: VideoEventsPage, body: JsonValue) -> bool {
    &&& match member(body, "videos"@) {
        Some(JsonValue::Array(items)) => p.events@.len() == items@.len() && forall|i: int|
            0 <= i < items@.len() ==> event_of_json(#[trigger] p.events@[i], member(items@[i], "event"@)->Some_0),
        _ => p.events@.len() == 0,
    }
    &&& Some(p.next_cursor) == cursor_of(member(body, "next_cursor"@))
    &&& p.has_more == match member(body, "has_more"@) {
        Some(JsonValue::Bool(b)) => b,
        _ => false,
    }
}

fn read_cursor(v: Option<&JsonValue>) -> (res: Option<Option<i64>>)
    ensures
        res == cursor_of(match v {
            Some(x) => Some(*x),
            None => None,
        }),
{
    match v {
        None => Some(None),
        Some(JsonValue::Null) => Some(None),
        Some(JsonValue::Number(JsonNumber::Signed(i))) => Some(Some(*i)),
        Some(JsonValue::Number(JsonNumber::Unsigned(u))) => if *u <= 0x7fff_ffff_ffff_ffffu64 {
            Some(Some(*u as i64))
        } else {
            None
        },
        Some(JsonValue::String(s)) => {
            let t = crate::chars::string_from_chars(&trim_chars(&char_vec(s.as_str())));
            match parse_i64(t.as_str()) {
                Some(i) => Some(Some(i)),
                None => None,
            }
        },
        _ => None,
    }
}

/// Read a page body; `None` when it does not read.
pub fn video_events_page(body: &JsonValue) -> (res: Option<VideoEventsPage>)
    ensures
        res is Some <==> page_ok(*body),
        res matches Some(p) ==> page_of(p, *body),
{
    match body {
        JsonValue::Object(_) => {},
        _ => return None,
    }
    let next_cursor = match read_cursor(get_member(body, "next_cursor")) {
        Some(c) => c,
        None => return None,
    };
    let has_more = match get_member(body, "has_more") {
        None => false,
        Some(JsonValue::Bool(b)) => *b,
        Some(_) => return None,
    };
    let mut events: Vec<NostrEvent> = Vec::new();
    match get_member(body, "videos") {
        None => {},
        Some(JsonValue::Array(items)) => {
            let mut i: usize = 0;
            while i < items.len()
                invariant
                    i <= items@.len(),
                    events@.len() == i,
                    member(*body, "videos"@) == Some(JsonValue::Array(*items)),
                    forall|j: int|
                        0 <= j < i ==> video_entry_ok(#[trigger] items@[j]),
                    forall|j: int|
                        0 <= j < i ==> event_of_json(#[trigger] events@[j], member(items@[j], "event"@)->Some_0),
                decreases items.len() - i,
            {
                let item = &items[i];
                let is_object = match item {
                    JsonValue::Object(_) => true,
                    _ => false,
                };
                if !is_object {
                    assert(!video_entry_ok(items@[i as int]));
                    assert(!videos_ok(member(*body, "videos"@)));
                    return None;
                }
                let ev = match get_member(item, "event") {
                    Some(e) => e,
                    None => {
                        assert(!video_entry_ok(items@[i as int]));
                        assert(!videos_ok(member(*body, "videos"@)));
                        return None;
                    },
                };
                match event_from_json(ev) {
                    Some(e) => events.push(e),
                    None => {
                        assert(!video_entry_ok(items@[i as int]));
                        assert(!videos_ok(member(*body, "videos"@)));
                        return None;
                    },
                }
                i += 1;
            }
        },
        Some(_) => return None,
    }
    Some(VideoEventsPage { events, next_cursor, has_more })
}

} // verus!
