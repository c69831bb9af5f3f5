//! A JSON value as the tools read it from `niri` and `lsp-broker` replies:
//! the library's own model of a parsed document. Parsing and writing JSON
//! text is `serde_json`'s, behind trusted wrappers.
use vstd::prelude::*;
use serde_json::Value;

verus! {

/// A JSON number: a non-negative integer, a negative integer, or any other
/// number, held by its text.
#[derive(Debug, Clone)]
pub enum JsonNumber {
    PosInt(u64),
    NegInt(i64),
    Float(String),
}

/// A JSON value. An object keeps its members in order, each key once.
#[derive(Debug)]
pub enum Json {
    Null,
    Bool(bool),
    Number(JsonNumber),
    Str(String),
    Array(Vec<Json>),
    Object(Vec<(String, Json)>),
}

/// The index of the first member at or after `i` whose key is `key`.
pub open spec fn member_index_from(members: Seq<(String, Json)>, key: Seq<char>, i: int) -> Option<int>
    decreases members.len() - i,
{
    if i < 0 || i >= members.len() {
        None
    } else if members[i].0@ == key {
        Some(i)
    } else {
        member_index_from(members, key, i + 1)
    }
}

/// `Value::get(key)`: the member named `key` of an object; `None` for any
/// other value.
pub open spec fn json_get(v: Json, key: Seq<char>) -> Option<Json> {
    match v {
        Json::Object(members) => match member_index_from(members@, key, 0) {
            Some(i) => Some(members@[i].1),
            None => None,
        },
        _ => None,
    }
}

/// `Value::as_str`.
pub open spec fn json_str(v: Json) -> Option<Seq<char>> {
    match v {
        Json::Str(s) => Some(s@),
        _ => None,
    }
}

/// `Value::as_u64`: a non-negative integer.
pub open spec fn json_u64(v: Json) -> Option<u64> {
    match v {
        Json::Number(JsonNumber::PosInt(n)) => Some(n),
        _ => None,
    }
}

/// `Option::and_then` of a lookup and `json_str`.
pub open spec fn opt_json_str(v: Option<Json>) -> Option<Seq<char>> {
    match v {
        Some(j) => json_str(j),
        None => None,
    }
}

/// `Option::and_then` of a lookup and `json_u64`.
pub open spec fn opt_json_u64(v: Option<Json>) -> Option<u64> {
    match v {
        Some(j) => json_u64(j),
        None => None,
    }
}

/// `Option::and_then` of a lookup and a further lookup.
pub open spec fn opt_json_get(v: Option<Json>, key: Seq<char>) -> Option<Json> {
    match v {
        Some(j) => json_get(j, key),
        None => None,
    }
}

impl Json {
    /// The member named `key` of an object (`Value::get`).
    pub fn get(&self, key: &str) -> (r: Option<&Json>)
        ensures
            match json_get(*self, key@) {
                Some(j) => r == Some(&j),
                None => r is None,
            },
    {
        match self {
            Json::Object(members) => {
                let n = members.len();
                let mut i: usize = 0;
                while i < n
                    invariant
                        n == members@.len(),
                        i <= n,
                        json_get(*self, key@) == (match member_index_from(members@, key@, 0) {
                            Some(k) => Some(members@[k].1),
                            None => None::<Json>,
                        }),
                        member_index_from(members@, key@, 0) == member_index_from(
                            members@,
                            key@,
                            i as int,
                        ),
                    decreases n - i,
                {
                    if crate::text::str_eq(members[i].0.as_str(), key) {
                        assert(member_index_from(members@, key@, i as int) == Some(i as int));
                        return Some(&members[i].1);
                    }
                    i = i + 1;
                }
                None
            },
            _ => None,
        }
    }

    /// `Value::as_str`.
    pub fn as_str(&self) -> (r: Option<&str>)
        ensures
            match json_str(*self) {
                Some(s) => r matches Some(x) && x@ == s,
                None => r is None,
            },
    {
        match self {
            Json::Str(s) => Some(s.as_str()),
            _ => None,
        }
    }

    /// `Value::as_u64`.
    pub fn as_u64(&self) -> (r: Option<u64>)
        ensures
            r == json_u64(*self),
    {
        match self {
            Json::Number(JsonNumber::PosInt(n)) => Some(*n),
            _ => None,
        }
    }
}

/// `serde_json::Value`, a parsed JSON document.
#[verifier::external_type_specification]
#[verifier::external_body]
pub struct ExJsonValue(serde_json::Value);

/// What `serde_json::from_str::<serde_json::Value>` reads from `text`, as
/// the library's model; `None` when `text` is not one JSON document.
pub uninterp spec fn json_parse(text: Seq<char>) -> Option<Json>;

/// What `serde_json::to_string` writes for a document, given as the
/// library's model.
pub uninterp spec fn json_render(v: Json) -> Seq<char>;

/// The library's model of a `serde_json::Value`, one variant for one; the
/// conversion that `parse_json` applies to what serde_json parsed.
#[verifier::external_body]
fn json_of_value(v: &Value) -> Json {
    match v {
        Value::Null => Json::Null,
        Value::Bool(b) => Json::Bool(*b),
        Value::Number(n) => Json::Number(match (n.as_u64(), n.as_i64()) {
            (Some(u), _) => JsonNumber::PosInt(u),
            (None, Some(i)) => JsonNumber::NegInt(i),
            (None, None) => JsonNumber::Float(n.to_string()),
        }),
        Value::String(s) => Json::Str(s.clone()),
        Value::Array(a) => Json::Array(a.iter().map(json_of_value).collect()),
        Value::Object(m) => Json::Object(m.iter().map(|(k, x)| (k.clone(), json_of_value(x))).collect()),
    }
}

/// The `serde_json::Value` of the library's model, one variant for one;
/// the conversion that `render_json` applies before serde_json writes it.
#[verifier::external_body]
fn value_of_json(j: &Json) -> Value {
    match j {
        Json::Null => Value::Null,
        Json::Bool(b) => Value::Bool(*b),
        Json::Number(JsonNumber::PosInt(u)) => Value::from(*u),
        Json::Number(JsonNumber::NegInt(i)) => Value::from(*i),
        Json::Number(JsonNumber::Float(t)) => t.parse::<serde_json::Number>().map(Value::Number).unwrap_or(Value::Null),
        Json::Str(s) => Value::String(s.clone()),
        Json::Array(a) => Value::Array(a.iter().map(value_of_json).collect()),
        Json::Object(m) => Value::Object(m.iter().map(|(k, x)| (k.clone(), value_of_json(x))).collect()),
    }
}

/// `serde_json::from_str::<serde_json::Value>`: the document `text` holds,
/// if it is one. The contract claims only that the result is a function of
/// the text (`json_parse`); JSON's grammar is left to serde_json.
#[verifier::external_body]
pub(crate) fn parse_json(text: &str) -> (r: Option<Json>)
    ensures
        r == json_parse(text@),
{
    serde_json::from_str::<serde_json::Value>(text).ok().as_ref().map(json_of_value)
}

/// `serde_json::to_string` of a document. The contract claims only that
/// the text is a function of the document (`json_render`). Writing a
/// `Value` cannot fail; the empty text stands for a failure all the same.
#[verifier::external_body]
pub(crate) fn render_json(j: &Json) -> (r: String)
    ensures
        r@ == json_render(*j),
{
    serde_json::to_string(&value_of_json(j)).unwrap_or_default()
}

} // verus!
