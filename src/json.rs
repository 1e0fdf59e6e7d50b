//! A JSON value as the adapters read it, with lookups whose results are
//! stated over the value itself. Text is read and written by serde_json.

use vstd::prelude::*;
use crate::text::same_text;

verus! {

/// A JSON value. A number keeps its integer value where it has one, and its
/// decimal text.
#[derive(Debug)]
pub enum Json {
    Null,
    Bool(bool),
    Number(Option<i64>, String),
    Str(String),
    Array(Vec<Json>),
    Object(Vec<(String, Json)>),
}

/// The value under `key` among the members of an object from index `i` on.
pub open spec fn member_from(es: Seq<(String, Json)>, key: Seq<char>, i: int) -> Option<Json>
    decreases es.len() - i,
{
    if i < 0 || i >= es.len() {
        None
    } else if es[i].0@ == key {
        Some(es[i].1)
    } else {
        member_from(es, key, i + 1)
    }
}

/// The value under `key` where `v` is an object that has that member.
pub open spec fn member(v: Json, key: Seq<char>) -> Option<Json> {
    match v {
        Json::Object(es) => member_from(es@, key, 0),
        _ => None,
    }
}

/// The member `key` of an optional value.
pub open spec fn member_of(v: Option<Json>, key: Seq<char>) -> Option<Json> {
    match v {
        Some(x) => member(x, key),
        None => None,
    }
}

/// The text of a string value.
pub open spec fn text_of(v: Option<Json>) -> Option<Seq<char>> {
    match v {
        Some(Json::Str(s)) => Some(s@),
        _ => None,
    }
}

/// The text of the string member `key` of `v`.
pub open spec fn text_member(v: Json, key: Seq<char>) -> Option<Seq<char>> {
    text_of(member(v, key))
}

/// The integer value of a number.
pub open spec fn int_of(v: Option<Json>) -> Option<i64> {
    match v {
        Some(Json::Number(i, _)) => i,
        _ => None,
    }
}

/// The elements of an array value.
pub open spec fn items_of(v: Option<Json>) -> Option<Seq<Json>> {
    match v {
        Some(Json::Array(a)) => Some(a@),
        _ => None,
    }
}

/// An optional text as an optional view.
pub open spec fn opt_view(s: Option<String>) -> Option<Seq<char>> {
    match s {
        Some(t) => Some(t@),
        None => None,
    }
}

pub uninterp spec fn json_of_text(s: Seq<char>) -> Option<Json>;

pub uninterp spec fn text_of_json(v: Json) -> Seq<char>;

#[verifier::external_type_specification]
#[verifier::external_body]
pub struct ExValue(serde_json::Value);

/// Relies on the variants of `serde_json::Value`: each becomes the variant of
/// the same name, members and elements in the order serde_json keeps them.
#[verifier::external_body]
fn from_serde(v: serde_json::Value) -> Json {
    match v {
        serde_json::Value::Null => Json::Null,
        serde_json::Value::Bool(b) => Json::Bool(b),
        serde_json::Value::Number(n) => Json::Number(n.as_i64(), n.to_string()),
        serde_json::Value::String(s) => Json::Str(s),
        serde_json::Value::Array(a) => Json::Array(a.into_iter().map(from_serde).collect()),
        serde_json::Value::Object(o) => Json::Object(o.into_iter().map(|(k, x)| (k, from_serde(x))).collect()),
    }
}

/// Relies on the variants of `serde_json::Value`: the inverse of `from_serde`;
/// a number is read back from its decimal text.
#[verifier::external_body]
fn to_serde(v: &Json) -> serde_json::Value {
    match v {
        Json::Null => serde_json::Value::Null,
        Json::Bool(b) => serde_json::Value::Bool(*b),
        Json::Number(_, t) => t.parse::<serde_json::Value>().unwrap_or(serde_json::Value::Null),
        Json::Str(s) => serde_json::Value::String(s.clone()),
        Json::Array(a) => serde_json::Value::Array(a.iter().map(to_serde).collect()),
        Json::Object(o) => serde_json::Value::Object(o.iter().map(|(k, x)| (k.clone(), to_serde(x))).collect()),
    }
}

/// Relies on `serde_json::from_str`: the value that a JSON text denotes, or
/// `None` where the text is not JSON. The result depends on the text alone.
#[verifier::external_body]
fn parse_text(text: &str) -> (r: Option<Json>)
    ensures
        r == json_of_text(text@),
{
    serde_json::from_str::<serde_json::Value>(text).ok().map(from_serde)
}

/// Relies on `serde_json::Value::to_string`: the compact JSON text of a value.
#[verifier::external_body]
fn text_of_value(v: &Json) -> (r: String)
    ensures
        r@ == text_of_json(*v),
{
    to_serde(v).to_string()
}

/// The value of a JSON text, or `None` where the text is not JSON.
pub fn parse_json(text: &str) -> (r: Option<Json>)
    ensures
        r == json_of_text(text@),
{
    parse_text(text)
}

/// The compact JSON text of a value.
pub fn json_text(v: &Json) -> (r: String)
    ensures
        r@ == text_of_json(*v),
{
    text_of_value(v)
}

impl Json {
    /// The member `key` of an object.
    pub fn get(&self, key: &str) -> (r: Option<&Json>)
        ensures
            r.is_some() == member(*self, key@).is_some(),
            r.is_some() ==> member(*self, key@) == Some(*r.unwrap()),
    {
        match self {
            Json::Object(es) => {
                let mut i: usize = 0;
                while i < es.len()
                    invariant
                        i <= es.len(),
                        member(*self, key@) == member_from(es@, key@, i as int),
                    decreases es.len() - i,
                {
                    if same_text(es[i].0.as_str(), key) {
                        assert(member_from(es@, key@, i as int) == Some(es@[i as int].1));
                        return Some(&es[i].1);
                    }
                    i = i + 1;
                }
                None
            },
            _ => None,
        }
    }

    /// The text of a string value.
    pub fn as_str(&self) -> (r: Option<&str>)
        ensures
            r.is_some() == text_of(Some(*self)).is_some(),
            r.is_some() ==> text_of(Some(*self)) == Some(r.unwrap()@),
    {
        match self {
            Json::Str(s) => Some(s.as_str()),
            _ => None,
        }
    }

    /// The integer value of a number.
    pub fn as_i64(&self) -> (r: Option<i64>)
        ensures
            r == int_of(Some(*self)),
    {
        match self {
            Json::Number(i, _) => *i,
            _ => None,
        }
    }

    /// The elements of an array.
    pub fn as_array(&self) -> (r: Option<&Vec<Json>>)
        ensures
            r.is_some() == items_of(Some(*self)).is_some(),
            r.is_some() ==> items_of(Some(*self)) == Some(r.unwrap()@),
    {
        match self {
            Json::Array(a) => Some(a),
            _ => None,
        }
    }

    /// A copy of the text of the string member `key`.
    pub fn text_member(&self, key: &str) -> (r: Option<String>)
        ensures
            opt_view(r) == text_member(*self, key@),
    {
        match self.get(key) {
            Some(v) => match v.as_str() {
                Some(s) => Some(String::from_str(s)),
                None => None,
            },
            None => None,
        }
    }
}

/// The text of the string member `key` of an optional value.
pub open spec fn text_member_of(v: Option<Json>, key: Seq<char>) -> Option<Seq<char>> {
    match v {
        Some(x) => text_member(x, key),
        None => None,
    }
}

/// Whether an optional text is present and equal to `k`.
pub fn text_is(s: &Option<String>, k: &str) -> (r: bool)
    ensures
        r == (opt_view(*s) == Some(k@)),
{
    match s {
        Some(t) => same_text(t.as_str(), k),
        None => false,
    }
}

/// Some line of a file is a JSON value; a file of which none is, is malformed.
pub open spec fn has_json_line(lines: Seq<Seq<char>>) -> bool {
    exists|i: int| 0 <= i < lines.len() && (#[trigger] json_of_text(lines[i])) is Some
}

/// Whether some line of a file is a JSON value.
pub fn any_json_line(lines: &Vec<String>) -> (r: bool)
    ensures
        r == has_json_line(crate::text::text_views(lines@)),
{
    let ghost lv = crate::text::text_views(lines@);
    let mut i: usize = 0;
    while i < lines.len()
        invariant
            i <= lines.len(),
            lv == crate::text::text_views(lines@),
            forall|k: int| 0 <= k < i ==> (#[trigger] json_of_text(lv[k])) is None,
        decreases lines.len() - i,
    {
        if parse_json(lines[i].as_str()).is_some() {
            assert(json_of_text(lv[i as int]) is Some);
            return true;
        }
        i = i + 1;
    }
    false
}

/// A JSON string.
pub fn str_value(s: &str) -> (r: Json)
    ensures
        r matches Json::Str(t) && t@ == s@,
{
    Json::Str(String::from_str(s))
}

/// A JSON string, or null.
pub fn opt_str_value(s: &Option<String>) -> (r: Json)
    ensures
        match s {
            Some(t) => r matches Json::Str(u) && u@ == t@,
            None => r matches Json::Null,
        },
{
    match s {
        Some(t) => Json::Str(t.clone()),
        None => Json::Null,
    }
}

/// A JSON integer.
pub fn int_value(i: i64) -> (r: Json)
    ensures
        r matches Json::Number(Some(j), _) && j == i,
{
    Json::Number(Some(i), crate::text::decimal_text(i))
}

} // verus!
