//! JSON documents as plain values. Text is read and written by `serde_json`;
//! every decision the runtime takes on a document is made on this model.
use vstd::prelude::*;
use crate::text::{parse_unsigned, parse_unsigned_exec, chars_of, str_eq};

verus! {

/// A JSON document. Numbers keep `serde_json`'s text for them; object
/// members keep the order `serde_json` gives them (sorted, no duplicates).
#[verifier::ext_equal]
#[derive(Debug, PartialEq, Eq)]
pub enum JsonValue {
    Null,
    Bool(bool),
    Number(String),
    Str(String),
    Array(Vec<JsonValue>),
    Object(Vec<(String, JsonValue)>),
}

#[verifier::external_type_specification]
#[verifier::external_body]
pub struct ExSerdeJsonValue(serde_json::Value);

/// The document `serde_json` reads from `text`, if `text` is JSON.
pub uninterp spec fn json_parse(text: Seq<char>) -> Option<JsonValue>;

/// The compact text `serde_json` writes for a document.
pub uninterp spec fn json_render(v: JsonValue) -> Seq<char>;

#[verifier::external_body]
fn from_serde(v: &serde_json::Value) -> JsonValue {
    match v {
        serde_json::Value::Null => JsonValue::Null,
        serde_json::Value::Bool(b) => JsonValue::Bool(*b),
        serde_json::Value::Number(n) => JsonValue::Number(n.to_string()),
        serde_json::Value::String(s) => JsonValue::Str(s.clone()),
        serde_json::Value::Array(a) => JsonValue::Array(a.iter().map(from_serde).collect()),
        serde_json::Value::Object(o) => JsonValue::Object(
            o.iter().map(|(k, x)| (k.clone(), from_serde(x))).collect(),
        ),
    }
}

#[verifier::external_body]
fn to_serde(v: &JsonValue) -> serde_json::Value {
    match v {
        JsonValue::Null => serde_json::Value::Null,
        JsonValue::Bool(b) => serde_json::Value::Bool(*b),
        JsonValue::Number(n) => serde_json::from_str(n).unwrap_or(serde_json::Value::Null),
        JsonValue::Str(s) => serde_json::Value::String(s.clone()),
        JsonValue::Array(a) => serde_json::Value::Array(a.iter().map(to_serde).collect()),
        JsonValue::Object(o) => serde_json::Value::Object(
            o.iter().map(|(k, x)| (k.clone(), to_serde(x))).collect(),
        ),
    }
}

/// Reads a JSON document (`serde_json::from_str::<Value>`): the document
/// the crate reads, or `None` where it reports an error.
#[verifier::external_body]
pub(crate) fn serde_parse(text: &str) -> (r: Option<JsonValue>)
    ensures
        r == json_parse(text@),
{
    match serde_json::from_str::<serde_json::Value>(text) {
        Ok(v) => Some(from_serde(&v)),
        Err(_) => None,
    }
}

/// Writes a JSON document compactly (`Value`'s `to_string`).
#[verifier::external_body]
pub(crate) fn serde_render(v: &JsonValue) -> (r: String)
    ensures
        r@ == json_render(*v),
{
    to_serde(v).to_string()
}

/// Reads `text` as a JSON document; `None` when it is not JSON.
pub fn parse_json(text: &str) -> (r: Option<JsonValue>)
    ensures
        r == json_parse(text@),
{
    serde_parse(text)
}

/// The compact JSON text of a document.
pub fn render_json(v: &JsonValue) -> (r: String)
    ensures
        r@ == json_render(*v),
{
    serde_render(v)
}

// ───────────────────────── reading documents ─────────────────────────

/// The value of member `key` of an object (`Value::get`).
pub open spec fn member(v: JsonValue, key: Seq<char>) -> Option<JsonValue> {
    match v {
        JsonValue::Object(fields) => {
            if exists|i: int| 0 <= i < fields@.len() && (#[trigger] fields@[i]).0@ == key {
                let i = choose|i: int|
                    0 <= i < fields@.len() && (#[trigger] fields@[i]).0@ == key && forall|j: int|
                        0 <= j < i ==> (#[trigger] fields@[j]).0@ != key;
                Some(fields@[i].1)
            } else {
                None
            }
        },
        _ => None,
    }
}

/// The text of a JSON string (`Value::as_str`).
pub open spec fn as_text(v: JsonValue) -> Option<Seq<char>> {
    match v {
        JsonValue::Str(s) => Some(s@),
        _ => None,
    }
}

/// The text of member `key` when it is a string.
pub open spec fn member_text(v: JsonValue, key: Seq<char>) -> Option<Seq<char>> {
    match member(v, key) {
        Some(m) => as_text(m),
        None => None,
    }
}

/// Element `i` of an array.
pub open spec fn element(v: JsonValue, i: int) -> Option<JsonValue> {
    match v {
        JsonValue::Array(items) => if 0 <= i < items@.len() {
            Some(items@[i])
        } else {
            None
        },
        _ => None,
    }
}

/// A number that is a non-negative integer within `u64` (`Value::as_u64`).
/// `serde_json` writes such numbers as plain digits and every other number
/// with a sign, a fraction or an exponent.
pub open spec fn as_count(v: JsonValue) -> Option<nat> {
    match v {
        JsonValue::Number(t) => if t@.len() > 0 && t@[0] != '+' {
            parse_unsigned(t@, u64::MAX as nat)
        } else {
            None
        },
        _ => None,
    }
}

/// A member found at `i`, with no earlier member of that name, is the
/// object's member of that name.
proof fn lemma_member_first(v: JsonValue, key: Seq<char>, i: int)
    requires
        v is Object,
        0 <= i < v->Object_0@.len(),
        v->Object_0@[i].0@ == key,
        forall|j: int| 0 <= j < i ==> (#[trigger] v->Object_0@[j]).0@ != key,
    ensures
        member(v, key) == Some(v->Object_0@[i].1),
{
    let f = v->Object_0@;
    assert(f[i].0@ == key);
    assert(exists|k: int| 0 <= k < f.len() && (#[trigger] f[k]).0@ == key);
    let w = choose|w: int|
        0 <= w < f.len() && (#[trigger] f[w]).0@ == key && forall|j: int|
            0 <= j < w ==> (#[trigger] f[j]).0@ != key;
    if w < i {
        assert(f[w].0@ != key);
    } else if w > i {
        assert(f[i].0@ != key);
    }
}

pub fn get_member<'a>(v: &'a JsonValue, key: &str) -> (r: Option<&'a JsonValue>)
    ensures
        r matches Some(x) ==> member(*v, key@) == Some(*x),
        r is None ==> member(*v, key@) is None,
{
    match v {
        JsonValue::Object(fields) => {
            let mut i: usize = 0;
            while i < fields.len()
                invariant
                    *v == JsonValue::Object(*fields),
                    i <= fields@.len(),
                    forall|j: int| 0 <= j < i ==> (#[trigger] fields@[j]).0@ != key@,
                decreases fields@.len() - i,
            {
                if str_eq(fields[i].0.as_str(), key) {
                    proof {
                        lemma_member_first(*v, key@, i as int);
                    }
                    return Some(&fields[i].1);
                }
                i = i + 1;
            }
            None
        },
        _ => None,
    }
}

/// Moves member `key` out of an object (the first member of that name).
pub fn take_member(v: JsonValue, key: &str) -> (r: Option<JsonValue>)
    ensures
        r == member(v, key@),
{
    match v {
        JsonValue::Object(fields) => {
            let ghost f0 = fields@;
            let mut fields = fields;
            let mut i: usize = 0;
            while i < fields.len()
                invariant
                    fields@ == f0,
                    v == JsonValue::Object(fields),
                    i <= f0.len(),
                    forall|j: int| 0 <= j < i ==> (#[trigger] f0[j]).0@ != key@,
                decreases f0.len() - i,
            {
                if str_eq(fields[i].0.as_str(), key) {
                    proof {
                        lemma_member_first(v, key@, i as int);
                    }
                    let (_k, x) = fields.remove(i);
                    return Some(x);
                }
                i = i + 1;
            }
            None
        },
        _ => None,
    }
}

pub fn get_text(v: &JsonValue) -> (r: Option<&String>)
    ensures
        r matches Some(s) ==> as_text(*v) == Some(s@),
        r is None ==> as_text(*v) is None,
{
    match v {
        JsonValue::Str(s) => Some(s),
        _ => None,
    }
}

pub fn get_member_text<'a>(v: &'a JsonValue, key: &str) -> (r: Option<&'a String>)
    ensures
        r matches Some(s) ==> member_text(*v, key@) == Some(s@),
        r is None ==> member_text(*v, key@) is None,
{
    match get_member(v, key) {
        Some(m) => get_text(m),
        None => None,
    }
}

pub fn get_element(v: &JsonValue, i: usize) -> (r: Option<&JsonValue>)
    ensures
        r matches Some(x) ==> element(*v, i as int) == Some(*x),
        r is None ==> element(*v, i as int) is None,
{
    match v {
        JsonValue::Array(items) => if i < items.len() {
            Some(&items[i])
        } else {
            None
        },
        _ => None,
    }
}

pub fn get_count(v: &JsonValue) -> (r: Option<u64>)
    ensures
        r matches Some(n) ==> as_count(*v) == Some(n as nat),
        r is None ==> as_count(*v) is None,
{
    match v {
        JsonValue::Number(t) => {
            let cs = chars_of(t.as_str());
            if cs.len() > 0 && cs[0] != '+' {
                parse_unsigned_exec(cs.as_slice(), u64::MAX)
            } else {
                None
            }
        },
        _ => None,
    }
}

} // verus!
