//! JSON values, as far as the answers of a registry are read.

use crate::text::{same_text, strings};
use vstd::prelude::*;

verus! {

/// A JSON value. A number is kept as the text it is written with; an object
/// is kept as its members, each under its name.
#[derive(Debug, PartialEq)]
pub enum JsonValue {
    Null,
    Bool(bool),
    Number(String),
    Text(String),
    Array(Vec<JsonValue>),
    Object(Vec<(String, JsonValue)>),
}

/// `serde_json::Value`: what `serde_json` reads a text as. Nothing is
/// known of a value of this type.
#[verifier::external_type_specification]
#[verifier::external_body]
pub struct ExValue(serde_json::Value);

/// The JSON value that a text is read as by `serde_json::from_str`, or
/// `None` where the text is no JSON.
pub uninterp spec fn json_of(body: Seq<char>) -> Option<JsonValue>;

/// One `serde_json::Value` as a value of this library, variant by variant:
/// a number as the text that `serde_json::Number` writes, the members of
/// an object in the order in which its map hands them out.
#[verifier::external_body]
fn lift(value: &serde_json::Value) -> (r: JsonValue) {
    match value {
        serde_json::Value::Null => JsonValue::Null,
        serde_json::Value::Bool(b) => JsonValue::Bool(*b),
        serde_json::Value::Number(n) => JsonValue::Number(n.to_string()),
        serde_json::Value::String(s) => JsonValue::Text(s.clone()),
        serde_json::Value::Array(a) => JsonValue::Array(a.iter().map(lift).collect()),
        serde_json::Value::Object(o) => JsonValue::Object(
            o.iter().map(|(k, v)| (k.clone(), lift(v))).collect(),
        ),
    }
}

/// `serde_json::from_str` at the type `serde_json::Value`: the value that
/// the text holds, or `None` where it is no JSON. The same text always
/// gives the same value.
#[verifier::external_body]
pub(crate) fn parse_value(body: &str) -> (r: Option<JsonValue>)
    ensures
        r == json_of(body@),
{
    match serde_json::from_str::<serde_json::Value>(body) {
        Ok(v) => Some(lift(&v)),
        Err(_) => None,
    }
}

/// Reads a text as JSON; `None` where it is none.
pub fn parse_json(body: &str) -> (r: Option<JsonValue>)
    ensures
        r == json_of(body@),
{
    parse_value(body)
}

/// The first of the members from `from` on that goes by the name `key`.
pub open spec fn member_from(
    members: Seq<(String, JsonValue)>,
    key: Seq<char>,
    from: int,
) -> Option<JsonValue>
    decreases members.len() - from,
{
    if from < 0 || from >= members.len() {
        None
    } else if members[from].0@ == key {
        Some(members[from].1)
    } else {
        member_from(members, key, from + 1)
    }
}

/// The member of an object that goes by the name `key`; nothing for a value
/// that is no object or has no such member.
pub open spec fn member_of(value: JsonValue, key: Seq<char>) -> Option<JsonValue> {
    match value {
        JsonValue::Object(members) => member_from(members@, key, 0),
        _ => None,
    }
}

/// The text of a value that is a string.
pub open spec fn text_of(value: JsonValue) -> Option<Seq<char>> {
    match value {
        JsonValue::Text(s) => Some(s@),
        _ => None,
    }
}

/// Every item is a string.
pub open spec fn all_text(items: Seq<JsonValue>) -> bool {
    forall|i: int| 0 <= i < items.len() ==> (#[trigger] items[i]) is Text
}

/// The texts of items that are all strings.
pub open spec fn texts_of(items: Seq<JsonValue>) -> Seq<Seq<char>> {
    Seq::new(items.len(), |i: int| text_of(items[i]).unwrap())
}

/// The texts of a value that is an array of strings.
pub open spec fn text_list_of(value: JsonValue) -> Option<Seq<Seq<char>>> {
    match value {
        JsonValue::Array(items) => if all_text(items@) {
            Some(texts_of(items@))
        } else {
            None
        },
        _ => None,
    }
}

/// The text of the member `key` of an object, when it is a string.
pub open spec fn text_member(value: JsonValue, key: Seq<char>) -> Option<Seq<char>> {
    match member_of(value, key) {
        Some(m) => text_of(m),
        None => None,
    }
}

/// The texts of the member `key` of an object, when it is an array of
/// strings.
pub open spec fn text_list_member(value: JsonValue, key: Seq<char>) -> Option<Seq<Seq<char>>> {
    match member_of(value, key) {
        Some(m) => text_list_of(m),
        None => None,
    }
}

impl JsonValue {
    /// The member of an object that goes by the name `key`.
    pub fn member(&self, key: &str) -> (r: Option<&JsonValue>)
        ensures
            match member_of(*self, key@) {
                Some(m) => r is Some && *r.unwrap() == m,
                None => r is None,
            },
    {
        match self {
            JsonValue::Object(members) => {
                let mut i: usize = 0;
                while i < members.len()
                    invariant
                        i <= members.len(),
                        member_of(*self, key@) == member_from(members@, key@, i as int),
                    decreases members.len() - i,
                {
                    if same_text(members[i].0.as_str(), key) {
                        return Some(&members[i].1);
                    }
                    i += 1;
                }
                None
            },
            _ => None,
        }
    }

    /// The text of a value that is a string.
    pub fn as_text(&self) -> (r: Option<String>)
        ensures
            match text_of(*self) {
                Some(t) => r is Some && r.unwrap()@ == t,
                None => r is None,
            },
    {
        match self {
            JsonValue::Text(s) => Some(s.clone()),
            _ => None,
        }
    }

    /// The texts of a value that is an array of strings.
    pub fn as_text_list(&self) -> (r: Option<Vec<String>>)
        ensures
            match text_list_of(*self) {
                Some(t) => r is Some && strings(r.unwrap()@) == t,
                None => r is None,
            },
    {
        match self {
            JsonValue::Array(items) => {
                let mut out: Vec<String> = Vec::new();
                let mut i: usize = 0;
                while i < items.len()
                    invariant
                        *self == JsonValue::Array(*items),
                        i <= items.len(),
                        out.len() == i,
                        forall|k: int| 0 <= k < i ==> (#[trigger] items@[k]) is Text,
                        forall|k: int|
                            0 <= k < i ==> Some((#[trigger] out@[k])@) == text_of(items@[k]),
                    decreases items.len() - i,
                {
                    match &items[i] {
                        JsonValue::Text(s) => {
                            out.push(s.clone());
                        },
                        _ => {
                            assert(!((items@[i as int]) is Text));
                            return None;
                        },
                    }
                    i += 1;
                }
                assert(strings(out@) =~= texts_of(items@));
                Some(out)
            },
            _ => None,
        }
    }

    /// The text of the member `key`, when it is a string.
    pub fn text_at(&self, key: &str) -> (r: Option<String>)
        ensures
            match text_member(*self, key@) {
                Some(t) => r is Some && r.unwrap()@ == t,
                None => r is None,
            },
    {
        match self.member(key) {
            Some(m) => m.as_text(),
            None => None,
        }
    }

    /// The texts of the member `key`, when it is an array of strings.
    pub fn text_list_at(&self, key: &str) -> (r: Option<Vec<String>>)
        ensures
            match text_list_member(*self, key@) {
                Some(t) => r is Some && strings(r.unwrap()@) == t,
                None => r is None,
            },
    {
        match self.member(key) {
            Some(m) => m.as_text_list(),
            None => None,
        }
    }
}

} // verus!
