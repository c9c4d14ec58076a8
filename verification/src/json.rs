//! A plain JSON document model, its tolerant accessors, and the one entry point that turns
//! bytes into it through `serde_json`. The readers of the undocumented JSON sources (session
//! files, transcript and rollout tails, wezterm's lists) work on this model.
use vstd::prelude::*;

use crate::text::str_eq;

verus! {

/// One JSON value. Numbers keep what the readers need of them: the value when it is a
/// non-negative integer that fits a `u64`, else `None` (negative, fractional or too large).
#[derive(Debug, PartialEq, Eq)]
pub enum JsonValue {
    Null,
    Bool(bool),
    Number(Option<u64>),
    Str(String),
    Array(Vec<JsonValue>),
    /// Members in `serde_json`'s map order (sorted by key); keys are unique.
    Object(Vec<(String, JsonValue)>),
}

#[verifier::external_type_specification]
#[verifier::external_body]
pub struct ExSerdeJsonValue(serde_json::Value);

/// The document `serde_json` reads from `bytes`, in this model (`None`: not one JSON document).
/// A function of the bytes alone: `serde_json`'s grammar, number handling and key order.
pub uninterp spec fn json_parse(bytes: Seq<u8>) -> Option<JsonValue>;

/// Carries a `serde_json::Value` over into this model variant for variant: numbers through
/// `Number::as_u64`, arrays and objects element by element in `serde_json`'s order. It is the
/// result conversion of `parse_json`, an item of its own only because it recurses; it states
/// nothing, and nothing but `parse_json` calls it.
#[verifier::external_body]
fn from_serde(v: serde_json::Value) -> JsonValue {
    match v {
        serde_json::Value::Null => JsonValue::Null,
        serde_json::Value::Bool(b) => JsonValue::Bool(b),
        serde_json::Value::Number(n) => JsonValue::Number(n.as_u64()),
        serde_json::Value::String(s) => JsonValue::Str(s),
        serde_json::Value::Array(a) => JsonValue::Array(a.into_iter().map(from_serde).collect()),
        serde_json::Value::Object(m) => JsonValue::Object(
            m.into_iter().map(|(k, x)| (k, from_serde(x))).collect(),
        ),
    }
}

/// `serde_json::from_slice::<serde_json::Value>`: the document the bytes hold, or `None` when
/// they hold no single JSON document. Trusted: the result is named, not described.
#[verifier::external_body]
pub(crate) fn parse_json(bytes: &[u8]) -> (r: Option<JsonValue>)
    ensures
        r == json_parse(bytes@),
{
    serde_json::from_slice::<serde_json::Value>(bytes).ok().map(from_serde)
}

/// The first member of `entries` named `key`.
pub open spec fn member(entries: Seq<(String, JsonValue)>, key: Seq<char>) -> Option<JsonValue>
    decreases entries.len(),
{
    if entries.len() == 0 {
        None
    } else if entries[0].0@ == key {
        Some(entries[0].1)
    } else {
        member(entries.drop_first(), key)
    }
}

/// `value.get(key)`: the member `key` of an object; `None` for any other value.
pub open spec fn jget(v: JsonValue, key: Seq<char>) -> Option<JsonValue> {
    match v {
        JsonValue::Object(es) => member(es@, key),
        _ => None,
    }
}

/// `get(key)` applied to an optional value.
pub open spec fn jget_opt(v: Option<JsonValue>, key: Seq<char>) -> Option<JsonValue> {
    match v {
        Some(x) => jget(x, key),
        None => None,
    }
}

/// `as_str` of an optional value.
pub open spec fn jstr(v: Option<JsonValue>) -> Option<Seq<char>> {
    match v {
        Some(JsonValue::Str(s)) => Some(s@),
        _ => None,
    }
}

/// `as_u64` of an optional value.
pub open spec fn ju64(v: Option<JsonValue>) -> Option<u64> {
    match v {
        Some(JsonValue::Number(n)) => n,
        _ => None,
    }
}

/// `as_bool` of an optional value.
pub open spec fn jbool(v: Option<JsonValue>) -> Option<bool> {
    match v {
        Some(JsonValue::Bool(b)) => Some(b),
        _ => None,
    }
}

/// `as_array` of an optional value.
pub open spec fn jarray(v: Option<JsonValue>) -> Option<Seq<JsonValue>> {
    match v {
        Some(JsonValue::Array(a)) => Some(a@),
        _ => None,
    }
}

pub open spec fn deref_opt(r: Option<&JsonValue>) -> Option<JsonValue> {
    match r {
        Some(x) => Some(*x),
        None => None,
    }
}

impl JsonValue {
    /// The member `key` of an object (`None` when absent or when this is not an object).
    pub fn get(&self, key: &str) -> (r: Option<&JsonValue>)
        ensures
            deref_opt(r) == jget(*self, key@),
    {
        match self {
            JsonValue::Object(es) => {
                let mut i: usize = 0;
                assert(es@.skip(0) =~= es@);
                while i < es.len()
                    invariant
                        i <= es.len(),
                        member(es@, key@) == member(es@.skip(i as int), key@),
                        jget(*self, key@) == member(es@, key@),
                    decreases es.len() - i,
                {
                    assert(es@.skip(i as int).drop_first() =~= es@.skip(i + 1));
                    assert(es@.skip(i as int)[0] == es@[i as int]);
                    if str_eq(es[i].0.as_str(), key) {
                        assert(es@.skip(i as int).len() > 0);
                        assert(member(es@.skip(i as int), key@) == Some(es@[i as int].1));
                        let found = &es[i].1;
                        return Some(found);
                    }
                    i = i + 1;
                }
                None
            },
            _ => None,
        }
    }

    /// The text of a string value.
    pub fn as_str(&self) -> (r: Option<String>)
        ensures
            match r {
                Some(s) => jstr(Some(*self)) == Some(s@),
                None => jstr(Some(*self)) is None,
            },
    {
        match self {
            JsonValue::Str(s) => Some(s.clone()),
            _ => None,
        }
    }

    /// A non-negative integer that fits a `u64`.
    pub fn as_u64(&self) -> (r: Option<u64>)
        ensures
            r == ju64(Some(*self)),
    {
        match self {
            JsonValue::Number(n) => *n,
            _ => None,
        }
    }

    /// A boolean value.
    pub fn as_bool(&self) -> (r: Option<bool>)
        ensures
            r == jbool(Some(*self)),
    {
        match self {
            JsonValue::Bool(b) => Some(*b),
            _ => None,
        }
    }
}

/// `get(key)` then `as_str`.
pub fn get_str(v: &JsonValue, key: &str) -> (r: Option<String>)
    ensures
        match r {
            Some(s) => jstr(jget(*v, key@)) == Some(s@),
            None => jstr(jget(*v, key@)) is None,
        },
{
    match v.get(key) {
        Some(x) => x.as_str(),
        None => None,
    }
}

/// `get(key)` then `as_u64`.
pub fn get_u64(v: &JsonValue, key: &str) -> (r: Option<u64>)
    ensures
        r == ju64(jget(*v, key@)),
{
    match v.get(key) {
        Some(x) => x.as_u64(),
        None => None,
    }
}

/// `get(key)` then `as_str`, compared with `want`.
pub fn get_str_is(v: &JsonValue, key: &str, want: &str) -> (r: bool)
    ensures
        r == (jstr(jget(*v, key@)) == Some(want@)),
{
    match v.get(key) {
        Some(JsonValue::Str(s)) => str_eq(s.as_str(), want),
        _ => false,
    }
}

} // verus!
