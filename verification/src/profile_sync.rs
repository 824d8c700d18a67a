//! Nostr kind 0 (profile metadata) to ATProto `app.bsky.actor.profile`.
//!
//! The kind-0 content is read as JSON; the profile record leaves as a
//! `JsonValue`.

use vstd::prelude::*;
use crate::chars::{char_vec, string_from_chars, trim_chars, trim_seq};
use crate::event::{BlobRef, NostrEvent};
use crate::json::{get_member, json_field, json_text_value, lemma_json_field_push, member, parse_json_text, JsonNumber, JsonValue};
use crate::translator::{iso8601_of, unix_to_iso8601};

verus! {

broadcast use vstd::seq_lib::group_seq_properties;

/// The profile record's collection.
pub const PROFILE_COLLECTION: &'static str = "app.bsky.actor.profile";
/// The profile record's key.
pub const PROFILE_RKEY: &'static str = "self";

/// The images a profile points at.
#[derive(Debug, Clone, PartialEq, Eq)]
pub struct ProfileAssets {
    pub avatar_url: Option<String>,
    pub banner_url: Option<String>,
}

/// The fields read from a kind-0 event.
#[derive(Debug, Clone, PartialEq, Eq)]
pub struct ParsedProfile {
    pub display_name: Option<String>,
    pub description: Option<String>,
    pub avatar_url: Option<String>,
    pub banner_url: Option<String>,
    pub website: Option<String>,
    pub created_at: String,
}

/// The first of `keys` whose member is a string, trimmed; `None` when no
/// key has a string or the first string is blank.
pub open spec fn first_string(v: JsonValue, keys: Seq<Seq<char>>) -> Option<Seq<char>>
    decreases keys.len(),
{
    if keys.len() == 0 {
        None
    } else {
        match member(v, keys[0]) {
            Some(JsonValue::String(s)) => if trim_seq(s@).len() == 0 {
                None
            } else {
                Some(trim_seq(s@))
            },
            _ => first_string(v, keys.drop_first()),
        }
    }
}

/// The views of a list of strings.
pub open spec fn key_views(keys: Seq<&str>) -> Seq<Seq<char>> {
    Seq::new(keys.len(), |i: int| keys[i]@)
}

/// Read the first present string of `keys`.
fn get_string(v: &JsonValue, keys: &Vec<&str>) -> (res: Option<String>)
    ensures
        res is Some <==> first_string(*v, key_views(keys@)) is Some,
        res matches Some(s) ==> first_string(*v, key_views(keys@)) == Some(s@),
{
    let mut i: usize = 0;
    while i < keys.len()
        invariant
            i <= keys@.len(),
            first_string(*v, key_views(keys@)) == first_string(*v, key_views(keys@).skip(i as int)),
        decreases keys.len() - i,
    {
        assert(key_views(keys@).skip(i as int).drop_first() =~= key_views(keys@).skip(i + 1));
        assert(key_views(keys@).skip(i as int)[0] == keys@[i as int]@);
        match get_member(v, keys[i]) {
            Some(JsonValue::String(s)) => {
                let t = trim_chars(&char_vec(s.as_str()));
                if t.len() == 0 {
                    return None;
                }
                return Some(string_from_chars(&t));
            },
            _ => {},
        }
        i += 1;
    }
    None
}

/// Why a kind-0 content is refused.
#[derive(Debug, Clone, Copy, PartialEq, Eq, Structural)]
pub enum ProfileParseError {
    InvalidJson,
    NotObject,
}

/// The text of each kind-0 reading error.
pub open spec fn profile_parse_error_text(e: ProfileParseError) -> Seq<char> {
    match e {
        ProfileParseError::InvalidJson => "kind 0 content must be valid JSON"@,
        ProfileParseError::NotObject => "kind 0 content must be a JSON object"@,
    }
}

impl ProfileParseError {
    pub fn message(&self) -> (s: String)
        ensures
            s@ == profile_parse_error_text(*self),
    {
        match self {
            ProfileParseError::InvalidJson => "kind 0 content must be valid JSON".to_string(),
            ProfileParseError::NotObject => "kind 0 content must be a JSON object".to_string(),
        }
    }
}

/// The fields of a kind-0 object: the name from `display_name`,
/// `displayName` or `name`; the bio from `about`, `bio` or `description`;
/// the avatar from `picture`, `image` or `avatar`; `banner`; the website
/// from `website` or `url`; the event time in RFC 3339.
pub open spec fn parsed_profile_of(p: ParsedProfile, v: JsonValue, created_at: i64) -> bool {
    &&& opt_view(p.display_name) == first_string(v, seq!["display_name"@, "displayName"@, "name"@])
    &&& opt_view(p.description) == first_string(v, seq!["about"@, "bio"@, "description"@])
    &&& opt_view(p.avatar_url) == first_string(v, seq!["picture"@, "image"@, "avatar"@])
    &&& opt_view(p.banner_url) == first_string(v, seq!["banner"@])
    &&& opt_view(p.website) == first_string(v, seq!["website"@, "url"@])
    &&& p.created_at@ == iso8601_of(created_at)
}

/// The view of an optional string.
pub open spec fn opt_view(s: Option<String>) -> Option<Seq<char>> {
    match s {
        Some(x) => Some(x@),
        None => None,
    }
}

fn lookup(v: &JsonValue, a: &str, b: Option<&str>, c: Option<&str>) -> (res: Option<String>)
    ensures
        opt_view(res) == first_string(
            *v,
            match (b, c) {
                (Some(b), Some(c)) => seq![a@, b@, c@],
                (Some(b), None) => seq![a@, b@],
                _ => seq![a@],
            },
        ),
{
    let mut keys: Vec<&str> = Vec::new();
    keys.push(a);
    match (b, c) {
        (Some(b), Some(c)) => {
            keys.push(b);
            keys.push(c);
        },
        (Some(b), None) => {
            keys.push(b);
        },
        _ => {},
    }
    let ghost expected = match (b, c) {
        (Some(b), Some(c)) => seq![a@, b@, c@],
        (Some(b), None) => seq![a@, b@],
        _ => seq![a@],
    };
    assert(key_views(keys@) =~= expected);
    get_string(v, &keys)
}

/// Read a kind-0 event: its content is read as JSON, then as a profile.
pub fn parse_kind0_profile(event: &NostrEvent) -> (res: Result<ParsedProfile, ProfileParseError>)
    ensures
        kind0_profile_of(*event, json_text_value(event.content@), res),
{
    let content = parse_json_text(event.content.as_str());
    kind0_profile_from_json(event, &content)
}

/// What a kind-0 event reads as, given the JSON value of its content.
pub open spec fn kind0_profile_of(
    event: NostrEvent,
    content: Option<JsonValue>,
    res: Result<ParsedProfile, ProfileParseError>,
) -> bool {
    match content {
        None => res == Err::<ParsedProfile, ProfileParseError>(ProfileParseError::InvalidJson),
        Some(v) => if v is Object {
            res matches Ok(p) && parsed_profile_of(p, v, event.created_at)
        } else {
            res == Err::<ParsedProfile, ProfileParseError>(ProfileParseError::NotObject)
        },
    }
}

/// Read a kind-0 event, given the JSON value of its content (`None` when
/// the content is not JSON).
pub fn kind0_profile_from_json(event: &NostrEvent, content: &Option<JsonValue>) -> (res: Result<ParsedProfile, ProfileParseError>)
    ensures
        kind0_profile_of(*event, *content, res),
{
    let v = match content {
        None => return Err(ProfileParseError::InvalidJson),
        Some(v) => v,
    };
    match v {
        JsonValue::Object(_) => {},
        _ => return Err(ProfileParseError::NotObject),
    }
    let display_name = lookup(v, "display_name", Some("displayName"), Some("name"));
    let description = lookup(v, "about", Some("bio"), Some("description"));
    let avatar_url = lookup(v, "picture", Some("image"), Some("avatar"));
    let banner_url = lookup(v, "banner", None, None);
    let website = lookup(v, "website", Some("url"), None);
    Ok(
        ParsedProfile {
            display_name,
            description,
            avatar_url,
            banner_url,
            website,
            created_at: unix_to_iso8601(event.created_at),
        },
    )
}

/// The images of a parsed profile.
pub fn profile_assets(parsed: &ParsedProfile) -> (a: ProfileAssets)
    ensures
        a.avatar_url == parsed.avatar_url,
        a.banner_url == parsed.banner_url,
{
    ProfileAssets { avatar_url: parsed.avatar_url.clone(), banner_url: parsed.banner_url.clone() }
}

/// The profile record's description: the parsed bio.
pub fn profile_description(parsed: &ParsedProfile) -> (d: Option<String>)
    ensures
        d == parsed.description,
{
    parsed.description.clone()
}

/// The JSON form of a blob reference:
/// `{"$type": "blob", "ref": {"$link": cid}, "mimeType": .., "size": ..}`.
pub open spec fn blob_json_of(j: JsonValue, b: BlobRef) -> bool {
    &&& member(j, "$type"@) matches Some(JsonValue::String(t)) && t@ == "blob"@
    &&& member(j, "ref"@) matches Some(r) && (member(r, "$link"@) matches Some(JsonValue::String(l)) && l@
        == b.cid@)
    &&& member(j, "mimeType"@) matches Some(JsonValue::String(m)) && m@ == b.mime_type@
    &&& member(j, "size"@) == Some(JsonValue::Number(JsonNumber::Unsigned(b.size)))
}

fn text(s: &str) -> (v: JsonValue)
    ensures
        v matches JsonValue::String(x) && x@ == s@,
{
    JsonValue::String(s.to_string())
}

/// The JSON form of a blob reference.
pub fn blob_json(b: &BlobRef) -> (j: JsonValue)
    ensures
        blob_json_of(j, *b),
{
    proof {
        reveal_strlit("$type");
        reveal_strlit("ref");
        reveal_strlit("mimeType");
        reveal_strlit("size");
        reveal_strlit("$link");
        assert("$type"@.len() == 5 && "ref"@.len() == 3 && "mimeType"@.len() == 8 && "size"@.len() == 4);
        assert("$type"@ != "size"@ && "ref"@ != "size"@ && "mimeType"@ != "size"@);
        assert("$type"@ != "mimeType"@ && "ref"@ != "mimeType"@ && "$type"@ != "ref"@);
    }
    let mut link: Vec<(String, JsonValue)> = Vec::new();
    let k0 = "$link".to_string();
    let v0 = text(b.cid.as_str());
    proof { lemma_json_field_push(link@, k0, v0); }
    link.push((k0, v0));
    let mut fields: Vec<(String, JsonValue)> = Vec::new();
    let k1 = "$type".to_string();
    let v1 = text("blob");
    proof { lemma_json_field_push(fields@, k1, v1); }
    fields.push((k1, v1));
    let k2 = "ref".to_string();
    let v2 = JsonValue::Object(link);
    proof { lemma_json_field_push(fields@, k2, v2); }
    fields.push((k2, v2));
    let k3 = "mimeType".to_string();
    let v3 = text(b.mime_type.as_str());
    proof { lemma_json_field_push(fields@, k3, v3); }
    fields.push((k3, v3));
    let k4 = "size".to_string();
    let v4 = JsonValue::Number(JsonNumber::Unsigned(b.size));
    proof { lemma_json_field_push(fields@, k4, v4); }
    fields.push((k4, v4));
    JsonValue::Object(fields)
}

/// A string member, present exactly when `value` is.
pub open spec fn string_member_is(j: JsonValue, key: Seq<char>, value: Option<String>) -> bool {
    match value {
        Some(s) => member(j, key) matches Some(JsonValue::String(x)) && x@ == s@,
        None => member(j, key) is None,
    }
}

/// The profile record of a parsed profile and its uploaded images.
pub open spec fn profile_record_of(j: JsonValue, p: ParsedProfile, avatar: Option<BlobRef>, banner: Option<BlobRef>) -> bool {
    &&& j is Object
    &&& member(j, "$type"@) matches Some(JsonValue::String(t)) && t@ == "app.bsky.actor.profile"@
    &&& string_member_is(j, "displayName"@, p.display_name)
    &&& string_member_is(j, "description"@, p.description)
    &&& member(j, "createdAt"@) matches Some(JsonValue::String(c)) && c@ == p.created_at@
    &&& string_member_is(j, "website"@, p.website)
    &&& match avatar {
        Some(b) => member(j, "avatar"@) matches Some(x) && blob_json_of(x, b),
        None => member(j, "avatar"@) is None,
    }
    &&& match banner {
        Some(b) => member(j, "banner"@) matches Some(x) && blob_json_of(x, b),
        None => member(j, "banner"@) is None,
    }
}

/// Build the `app.bsky.actor.profile` record.
pub fn build_profile_record(parsed: &ParsedProfile, avatar: Option<BlobRef>, banner: Option<BlobRef>) -> (j: JsonValue)
    ensures
        profile_record_of(j, *parsed, avatar, banner),
{
    proof {
        reveal_strlit("$type");
        reveal_strlit("displayName");
        reveal_strlit("description");
        reveal_strlit("createdAt");
        reveal_strlit("website");
        reveal_strlit("avatar");
        reveal_strlit("banner");
        assert("$type"@.len() == 5 && "displayName"@.len() == 11 && "description"@.len() == 11);
        assert("createdAt"@.len() == 9 && "website"@.len() == 7 && "avatar"@.len() == 6 && "banner"@.len() == 6);
        assert("displayName"@[1] != "description"@[1]);
        assert("avatar"@[0] != "banner"@[0]);
        assert("displayName"@ != "description"@ && "avatar"@ != "banner"@);
    }
    let mut fields: Vec<(String, JsonValue)> = Vec::new();
    let t = "$type".to_string();
    let tv = text(PROFILE_COLLECTION);
    proof { lemma_json_field_push(fields@, t, tv); }
    fields.push((t, tv));
    match &parsed.display_name {
        Some(d) => {
            let k = "displayName".to_string();
            let x = text(d.as_str());
            proof { lemma_json_field_push(fields@, k, x); }
            fields.push((k, x));
        },
        None => {},
    }
    match profile_description(parsed) {
        Some(d) => {
            let k = "description".to_string();
            let x = text(d.as_str());
            proof { lemma_json_field_push(fields@, k, x); }
            fields.push((k, x));
        },
        None => {},
    }
    let k = "createdAt".to_string();
    let x = text(parsed.created_at.as_str());
    proof { lemma_json_field_push(fields@, k, x); }
    fields.push((k, x));
    match &parsed.website {
        Some(w) => {
            let k = "website".to_string();
            let x = text(w.as_str());
            proof { lemma_json_field_push(fields@, k, x); }
            fields.push((k, x));
        },
        None => {},
    }
    match &avatar {
        Some(a) => {
            let k = "avatar".to_string();
            let x = blob_json(a);
            proof { lemma_json_field_push(fields@, k, x); }
            fields.push((k, x));
        },
        None => {},
    }
    match &banner {
        Some(b) => {
            let k = "banner".to_string();
            let x = blob_json(b);
            proof { lemma_json_field_push(fields@, k, x); }
            fields.push((k, x));
        },
        None => {},
    }
    JsonValue::Object(fields)
}

} // verus!
