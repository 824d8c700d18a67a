//! JSON values as the bridge reads them.
//!
//! Text is turned into a `JsonValue` at the edge; the functions here read
//! fields the way a typed deserialiser would: a field is found by key, a
//! string field must hold a string, an integer field an integer that fits.

use vstd::prelude::*;
use crate::chars::str_equal;

verus! {

/// A JSON number. Integers keep their value; other numbers are only known
/// to be non-integral (the bridge never reads them).
#[derive(Debug, Clone, Copy, PartialEq, Eq, Structural)]
pub enum JsonNumber {
    Unsigned(u64),
    Signed(i64),
    Float,
}

/// A JSON value; an object is its `(key, value)` members in order, with no
/// key twice.
#[derive(Debug)]
pub enum JsonValue {
    Null,
    Bool(bool),
    Number(JsonNumber),
    String(String),
    Array(Vec<JsonValue>),
    Object(Vec<(String, JsonValue)>),
}

/// The value of the first member named `key`.
pub open spec fn json_field(fields: Seq<(String, JsonValue)>, key: Seq<char>) -> Option<JsonValue>
    decreases fields.len(),
{
    if fields.len() == 0 {
        None
    } else if fields[0].0@ == key {
        Some(fields[0].1)
    } else {
        json_field(fields.drop_first(), key)
    }
}

/// The member `key` of an object value.
pub open spec fn member(v: JsonValue, key: Seq<char>) -> Option<JsonValue> {
    match v {
        JsonValue::Object(fields) => json_field(fields@, key),
        _ => None,
    }
}

/// The text of a string value.
pub open spec fn string_of(v: Option<JsonValue>) -> Option<Seq<char>> {
    match v {
        Some(JsonValue::String(s)) => Some(s@),
        _ => None,
    }
}

/// An integer value that fits in `i64`.
pub open spec fn i64_of(v: Option<JsonValue>) -> Option<i64> {
    match v {
        Some(JsonValue::Number(JsonNumber::Signed(i))) => Some(i),
        Some(JsonValue::Number(JsonNumber::Unsigned(u))) => if u <= i64::MAX {
            Some(u as i64)
        } else {
            None
        },
        _ => None,
    }
}

/// An integer value that fits in `u64`.
pub open spec fn u64_of(v: Option<JsonValue>) -> Option<u64> {
    match v {
        Some(JsonValue::Number(JsonNumber::Unsigned(u))) => Some(u),
        Some(JsonValue::Number(JsonNumber::Signed(i))) => if i >= 0 {
            Some(i as u64)
        } else {
            None
        },
        _ => None,
    }
}

/// The JSON value that `serde_json` reads from a text, `None` when the text
/// is not JSON. Integers keep their value; duplicate keys keep the last.
pub uninterp spec fn json_text_value(text: Seq<char>) -> Option<JsonValue>;

/// `serde_json::Value`, carried only inside the reader below.
#[verifier::external_type_specification]
#[verifier::external_body]
pub struct ExSerdeJsonValue(serde_json::Value);

/// Calls `serde_json::from_str::<serde_json::Value>` and moves the result
/// into a `JsonValue`. Claimed: the result is a function of the text alone
/// (`json_text_value`); `None` exactly when `serde_json` refuses the text.
#[verifier::external_body]
pub(crate) fn parse_json_text(text: &str) -> (res: Option<JsonValue>)
    ensures
        res == json_text_value(text@),
{
    serde_json::from_str::<serde_json::Value>(text).ok().map(json_from_serde)
}

/// The JSON value that `serde_json` reads from bytes, `None` when they are
/// not JSON. Integers keep their value; duplicate keys keep the last.
pub uninterp spec fn json_bytes_value(bytes: Seq<u8>) -> Option<JsonValue>;

/// Calls `serde_json::from_slice::<serde_json::Value>` and moves the result
/// into a `JsonValue`. Claimed: the result is a function of the bytes alone
/// (`json_bytes_value`); `None` exactly when `serde_json` refuses them.
#[verifier::external_body]
pub(crate) fn parse_json_bytes(bytes: &[u8]) -> (res: Option<JsonValue>)
    ensures
        res == json_bytes_value(bytes@),
{
    serde_json::from_slice::<serde_json::Value>(bytes).ok().map(json_from_serde)
}

/// Moves a `serde_json::Value` into a `JsonValue`, variant by variant; a
/// number becomes `Unsigned` when `Number::as_u64` gives one, else `Signed`
/// when `Number::as_i64` does, else `Float`. Only the two readers above call
/// it.
#[verifier::external_body]
fn json_from_serde(v: serde_json::Value) -> JsonValue {
    match v {
        serde_json::Value::Null => JsonValue::Null,
        serde_json::Value::Bool(b) => JsonValue::Bool(b),
        serde_json::Value::Number(n) => JsonValue::Number(match (n.as_u64(), n.as_i64()) {
            (Some(u), _) => JsonNumber::Unsigned(u),
            (None, Some(i)) => JsonNumber::Signed(i),
            (None, None) => JsonNumber::Float,
        }),
        serde_json::Value::String(s) => JsonValue::String(s),
        serde_json::Value::Array(a) => JsonValue::Array(a.into_iter().map(json_from_serde).collect()),
        serde_json::Value::Object(o) => JsonValue::Object(o.into_iter().map(|(k, x)| (k, json_from_serde(x))).collect()),
    }
}

/// The member `key` of an object, if the value is one and has it.
pub fn get_member<'a>(v: &'a JsonValue, key: &str) -> (res: Option<&'a JsonValue>)
    ensures
        res matches Some(x) ==> member(*v, key@) == Some(*x),
        res is None ==> member(*v, key@) is None,
{
    match v {
        JsonValue::Object(fields) => {
            let mut i: usize = 0;
            assert(fields@.skip(0) =~= fields@);
            while i < fields.len()
                invariant
                    i <= fields@.len(),
                    json_field(fields@, key@) == json_field(fields@.skip(i as int), key@),
                    member(*v, key@) == json_field(fields@, key@),
                decreases fields.len() - i,
            {
                assert(fields@.skip(i as int).drop_first() =~= fields@.skip(i + 1));
                if str_equal(fields[i].0.as_str(), key) {
                    let ghost rest = fields@.skip(i as int);
                    assert(rest[0] == fields@[i as int]);
                    assert(rest.len() > 0);
                    assert(rest[0].0@ == key@);
                    assert(json_field(rest, key@) == Some(rest[0].1));
                    assert(member(*v, key@) == Some(fields@[i as int].1));
                    return Some(&fields[i].1);
                }
                i += 1;
            }
            None
        },
        _ => None,
    }
}

/// A string value's text.
pub fn as_string(v: &JsonValue) -> (res: Option<String>)
    ensures
        res is Some <==> string_of(Some(*v)) is Some,
        res matches Some(s) ==> string_of(Some(*v)) == Some(s@),
{
    match v {
        JsonValue::String(s) => Some(s.clone()),
        _ => None,
    }
}

/// An integer value as `i64`.
pub fn as_i64(v: &JsonValue) -> (res: Option<i64>)
    ensures
        res == i64_of(Some(*v)),
{
    match v {
        JsonValue::Number(JsonNumber::Signed(i)) => Some(*i),
        JsonValue::Number(JsonNumber::Unsigned(u)) => if *u <= 0x7fff_ffff_ffff_ffffu64 {
            Some(*u as i64)
        } else {
            None
        },
        _ => None,
    }
}

/// An integer value as `u64`.
pub fn as_u64(v: &JsonValue) -> (res: Option<u64>)
    ensures
        res == u64_of(Some(*v)),
{
    match v {
        JsonValue::Number(JsonNumber::Unsigned(u)) => Some(*u),
        JsonValue::Number(JsonNumber::Signed(i)) => if *i >= 0 {
            Some(*i as u64)
        } else {
            None
        },
        _ => None,
    }
}


/// Appending a member changes a lookup only when the key was not yet there.
pub proof fn lemma_json_field_push(fields: Seq<(String, JsonValue)>, k: String, v: JsonValue)
    ensures
        forall|key: Seq<char>|
            #[trigger] json_field(fields.push((k, v)), key) == if json_field(fields, key) is Some {
                json_field(fields, key)
            } else if k@ == key {
                Some(v)
            } else {
                None
            },
    decreases fields.len(),
{
    assert forall|key: Seq<char>|
        #[trigger] json_field(fields.push((k, v)), key) == if json_field(fields, key) is Some {
            json_field(fields, key)
        } else if k@ == key {
            Some(v)
        } else {
            None
        } by {
        let pushed = fields.push((k, v));
        if fields.len() > 0 {
            assert(pushed.drop_first() =~= fields.drop_first().push((k, v)));
            assert(pushed[0] == fields[0]);
            lemma_json_field_push(fields.drop_first(), k, v);
            assert(json_field(pushed.drop_first(), key) == json_field(fields.drop_first().push((k, v)), key));
        } else {
            assert(pushed.drop_first() =~= Seq::<(String, JsonValue)>::empty());
            assert(json_field(Seq::<(String, JsonValue)>::empty(), key) is None);
            assert(pushed[0] == (k, v));
        }
    }
}

// ---------------------------------------------------------------------------
// Writing JSON
// ---------------------------------------------------------------------------

/// The mathematical content of a JSON value: texts as character sequences,
/// arrays and objects as sequences.
pub enum JsonTree {
    Null,
    Bool(bool),
    Number(JsonNumber),
    Str(Seq<char>),
    Array(Seq<JsonTree>),
    Object(Seq<(Seq<char>, JsonTree)>),
}

/// The tree of a value.
pub open spec fn json_tree(v: JsonValue) -> JsonTree
    decreases v,
{
    match v {
        JsonValue::Null => JsonTree::Null,
        JsonValue::Bool(b) => JsonTree::Bool(b),
        JsonValue::Number(n) => JsonTree::Number(n),
        JsonValue::String(s) => JsonTree::Str(s@),
        JsonValue::Array(items) => JsonTree::Array(
            Seq::new(
                items@.len(),
                |i: int|
                    if 0 <= i < items@.len() {
                        json_tree(items@[i])
                    } else {
                        JsonTree::Null
                    },
            ),
        ),
        JsonValue::Object(fields) => JsonTree::Object(
            Seq::new(
                fields@.len(),
                |i: int|
                    if 0 <= i < fields@.len() {
                        (fields@[i].0@, json_tree(fields@[i].1))
                    } else {
                        (Seq::empty(), JsonTree::Null)
                    },
            ),
        ),
    }
}

impl View for JsonValue {
    type V = JsonTree;

    open spec fn view(&self) -> JsonTree {
        json_tree(*self)
    }
}

/// The compact text that `serde_json::to_string` writes for the
/// `serde_json::Value` of a tree: no whitespace, strings escaped as JSON
/// requires, object members in key order with the last of a repeated key
/// kept, and `null` for a non-integral number (whose value a `JsonValue`
/// does not keep).
pub uninterp spec fn json_compact_text(t: JsonTree) -> Seq<char>;

/// Moves a `JsonValue` into a `serde_json::Value`, variant by variant; a
/// non-integral number, whose value is not kept, becomes `Null`. Only
/// `write_json_text` calls it.
#[verifier::external_body]
fn json_to_serde(v: &JsonValue) -> serde_json::Value {
    match v {
        JsonValue::Null => serde_json::Value::Null,
        JsonValue::Bool(b) => serde_json::Value::Bool(*b),
        JsonValue::Number(JsonNumber::Unsigned(u)) => serde_json::Value::from(*u),
        JsonValue::Number(JsonNumber::Signed(i)) => serde_json::Value::from(*i),
        JsonValue::Number(JsonNumber::Float) => serde_json::Value::Null,
        JsonValue::String(s) => serde_json::Value::String(s.clone()),
        JsonValue::Array(a) => serde_json::Value::Array(a.iter().map(json_to_serde).collect()),
        JsonValue::Object(o) => serde_json::Value::Object(o.iter().map(|(k, x)| (k.clone(), json_to_serde(x))).collect()),
    }
}

/// `serde_json::to_string` of the value's `serde_json::Value`. Claimed: the
/// text is a function of the value's tree (`json_compact_text`); writing a
/// `Value` cannot fail, its keys being strings.
#[verifier::external_body]
pub(crate) fn write_json_text(v: &JsonValue) -> (res: String)
    ensures
        res@ == json_compact_text(v@),
{
    match serde_json::to_string(&json_to_serde(v)) {
        Ok(s) => s,
        Err(_) => String::new(),
    }
}

/// Whether two values have the same tree. Non-integral numbers, whose values
/// a `JsonValue` does not keep, count as equal.
pub fn json_equal(a: &JsonValue, b: &JsonValue) -> (r: bool)
    ensures
        r == (a@ == b@),
    decreases a,
{
    match (a, b) {
        (JsonValue::Null, JsonValue::Null) => true,
        (JsonValue::Bool(x), JsonValue::Bool(y)) => *x == *y,
        (JsonValue::Number(x), JsonValue::Number(y)) => *x == *y,
        (JsonValue::String(x), JsonValue::String(y)) => str_equal(x.as_str(), y.as_str()),
        (JsonValue::Array(xs), JsonValue::Array(ys)) => {
            if xs.len() != ys.len() {
                assert(a@->Array_0.len() != b@->Array_0.len());
                return false;
            }
            let mut i: usize = 0;
            while i < xs.len()
                invariant
                    i <= xs@.len(),
                    xs@.len() == ys@.len(),
                    *a == JsonValue::Array(*xs),
                    *b == JsonValue::Array(*ys),
                    forall|j: int| 0 <= j < i ==> (#[trigger] xs@[j])@ == ys@[j]@,
                decreases xs.len() - i,
            {
                assert(decreases_to!(*a => xs@[i as int]));
                if !json_equal(&xs[i], &ys[i]) {
                    assert(a@->Array_0[i as int] != b@->Array_0[i as int]);
                    return false;
                }
                i += 1;
            }
            assert(a@->Array_0 =~= b@->Array_0);
            true
        },
        (JsonValue::Object(xs), JsonValue::Object(ys)) => {
            if xs.len() != ys.len() {
                assert(a@->Object_0.len() != b@->Object_0.len());
                return false;
            }
            let mut i: usize = 0;
            while i < xs.len()
                invariant
                    i <= xs@.len(),
                    xs@.len() == ys@.len(),
                    *a == JsonValue::Object(*xs),
                    *b == JsonValue::Object(*ys),
                    forall|j: int| 0 <= j < i ==> (#[trigger] xs@[j]).0@ == ys@[j].0@ && xs@[j].1@ == ys@[j].1@,
                decreases xs.len() - i,
            {
                if !str_equal(xs[i].0.as_str(), ys[i].0.as_str()) {
                    assert(a@->Object_0[i as int] != b@->Object_0[i as int]);
                    return false;
                }
                assert(decreases_to!(*a => xs@[i as int].1));
                if !json_equal(&xs[i].1, &ys[i].1) {
                    assert(a@->Object_0[i as int] != b@->Object_0[i as int]);
                    return false;
                }
                i += 1;
            }
            assert(a@->Object_0 =~= b@->Object_0);
            true
        },
        _ => false,
    }
}

} // verus!
