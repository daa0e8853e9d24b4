//! A JSON document as a tree of plain values, and lookups in it.
use crate::decimal::{integer_value, parse_integer};
use vstd::prelude::*;

verus! {

#[verifier::external_type_specification]
#[verifier::external_body]
pub struct ExJsonValue(serde_json::Value);

/// A JSON value. A number is held as its canonical decimal text.
#[derive(Debug)]
pub enum Json {
    Null,
    Bool(bool),
    Number(String),
    Str(String),
    Array(Vec<Json>),
    Object(Vec<(String, Json)>),
}

/// The tree that the JSON text `s` denotes, or `None` where `s` is not JSON.
pub uninterp spec fn json_of_text(s: Seq<char>) -> Option<Json>;

/// Relies on serde_json::from_str into serde_json::Value: it reads the whole
/// text, and the tree it gives depends on the text alone.
#[verifier::external_body]
pub(crate) fn parse_json(text: &str) -> (r: Option<Json>)
    ensures
        r == json_of_text(text@),
{
    serde_json::from_str::<serde_json::Value>(text).ok().map(json_tree)
}

/// Relies on the variants of serde_json::Value and on the Display of
/// serde_json::Number: moves each variant into the one of the same name.
#[verifier::external_body]
fn json_tree(v: serde_json::Value) -> Json {
    match v {
        serde_json::Value::Null => Json::Null,
        serde_json::Value::Bool(b) => Json::Bool(b),
        serde_json::Value::Number(n) => Json::Number(n.to_string()),
        serde_json::Value::String(s) => Json::Str(s),
        serde_json::Value::Array(a) => Json::Array(a.into_iter().map(json_tree).collect()),
        serde_json::Value::Object(o) => Json::Object(
            o.into_iter().map(|(k, x)| (k, json_tree(x))).collect(),
        ),
    }
}

/// The value of the first member named `key`.
pub open spec fn field(entries: Seq<(String, Json)>, key: Seq<char>) -> Option<Json>
    decreases entries.len(),
{
    if entries.len() == 0 {
        None
    } else if entries[0].0@ == key {
        Some(entries[0].1)
    } else {
        field(entries.drop_first(), key)
    }
}

/// The member `key` of `j`, when `j` is an object that has one.
pub open spec fn member(j: Json, key: Seq<char>) -> Option<Json> {
    match j {
        Json::Object(entries) => field(entries@, key),
        _ => None,
    }
}

/// Looks up the member `key` of `j`.
pub fn get_member<'a>(j: &'a Json, key: &str) -> (r: Option<&'a Json>)
    ensures
        r matches Some(x) ==> member(*j, key@) == Some(*x),
        r is None ==> member(*j, key@) is None,
{
    match j {
        Json::Object(entries) => {
            let mut i: usize = 0;
            assert(entries@.subrange(0, entries.len() as int) =~= entries@);
            while i < entries.len()
                invariant
                    i <= entries.len(),
                    member(*j, key@) == field(entries@, key@),
                    field(entries@, key@) == field(entries@.subrange(i as int, entries.len() as int), key@),
                decreases entries.len() - i,
            {
                let ghost rest = entries@.subrange(i as int, entries.len() as int);
                assert(rest.drop_first() =~= entries@.subrange(i + 1, entries.len() as int));
                if crate::request::same_text(entries[i].0.as_str(), key) {
                    return Some(&entries[i].1);
                }
                i = i + 1;
            }
            None
        }
        _ => None,
    }
}

/// The text of a string value.
pub open spec fn text_of(o: Option<Json>) -> Option<Seq<char>> {
    match o {
        Some(Json::Str(s)) => Some(s@),
        _ => None,
    }
}

/// The decimal text of a number value.
pub open spec fn number_of(o: Option<Json>) -> Option<Seq<char>> {
    match o {
        Some(Json::Number(t)) => Some(t@),
        _ => None,
    }
}

/// The value of an integer number within `lo..=hi`.
pub open spec fn int_of(o: Option<Json>, lo: int, hi: int) -> Option<int> {
    match o {
        Some(Json::Number(t)) => match integer_value(t@) {
            Some(v) => if lo <= v <= hi {
                Some(v)
            } else {
                None
            },
            None => None,
        },
        _ => None,
    }
}

/// An optional member: absent or null gives `Some(None)`; an integer within
/// `lo..=hi` gives `Some(Some(v))`; anything else gives `None`.
pub open spec fn opt_int_of(o: Option<Json>, lo: int, hi: int) -> Option<Option<int>> {
    match o {
        None => Some(None),
        Some(Json::Null) => Some(None),
        _ => match int_of(o, lo, hi) {
            Some(v) => Some(Some(v)),
            None => None,
        },
    }
}

/// An optional number: absent or null gives `Some(None)`; a number gives
/// `Some(Some(text))`; anything else gives `None`.
pub open spec fn opt_number_of(o: Option<Json>) -> Option<Option<Seq<char>>> {
    match o {
        None => Some(None),
        Some(Json::Null) => Some(None),
        Some(Json::Number(t)) => Some(Some(t@)),
        _ => None,
    }
}

/// The value `o` as an `i32`-typed member reads it.
pub open spec fn i32_of(o: Option<Json>) -> Option<int> {
    int_of(o, i32::MIN as int, i32::MAX as int)
}

/// The value `o` as an `i64`-typed member reads it.
pub open spec fn i64_of(o: Option<Json>) -> Option<int> {
    int_of(o, i64::MIN as int, i64::MAX as int)
}

/// The value `o` as an optional `i32`-typed member reads it.
pub open spec fn opt_i32_of(o: Option<Json>) -> Option<Option<int>> {
    opt_int_of(o, i32::MIN as int, i32::MAX as int)
}

/// The string member `key`.
pub fn string_member(j: &Json, key: &str) -> (r: Option<String>)
    ensures
        r matches Some(s) ==> text_of(member(*j, key@)) == Some(s@),
        r is None <==> text_of(member(*j, key@)) is None,
{
    match get_member(j, key) {
        Some(Json::Str(s)) => Some(s.clone()),
        _ => None,
    }
}

/// The decimal text of the number member `key`.
pub fn number_member(j: &Json, key: &str) -> (r: Option<String>)
    ensures
        r matches Some(s) ==> number_of(member(*j, key@)) == Some(s@),
        r is None <==> number_of(member(*j, key@)) is None,
{
    match get_member(j, key) {
        Some(Json::Number(t)) => Some(t.clone()),
        _ => None,
    }
}

/// The integer member `key`, when it lies within `lo..=hi`.
pub fn int_member(j: &Json, key: &str, lo: i64, hi: i64) -> (r: Option<i64>)
    ensures
        r matches Some(v) ==> int_of(member(*j, key@), lo as int, hi as int) == Some(v as int),
        r is None <==> int_of(member(*j, key@), lo as int, hi as int) is None,
{
    match get_member(j, key) {
        Some(Json::Number(t)) => parse_integer(t.as_str(), lo, hi),
        _ => None,
    }
}

/// The optional integer member `key`: `Some(None)` when it is absent or null.
pub fn opt_int_member(j: &Json, key: &str, lo: i64, hi: i64) -> (r: Option<Option<i64>>)
    ensures
        r matches Some(Some(v)) ==> opt_int_of(member(*j, key@), lo as int, hi as int) == Some(
            Some(v as int),
        ),
        r matches Some(None) ==> opt_int_of(member(*j, key@), lo as int, hi as int) == Some(
            None::<int>,
        ),
        r is None <==> opt_int_of(member(*j, key@), lo as int, hi as int) is None,
{
    match get_member(j, key) {
        None => Some(None),
        Some(Json::Null) => Some(None),
        Some(Json::Number(t)) => match parse_integer(t.as_str(), lo, hi) {
            Some(v) => Some(Some(v)),
            None => None,
        },
        _ => None,
    }
}

/// The optional number member `key`: `Some(None)` when it is absent or null.
pub fn opt_number_member(j: &Json, key: &str) -> (r: Option<Option<String>>)
    ensures
        r matches Some(Some(t)) ==> opt_number_of(member(*j, key@)) == Some(Some(t@)),
        r matches Some(None) ==> opt_number_of(member(*j, key@)) == Some(None::<Seq<char>>),
        r is None <==> opt_number_of(member(*j, key@)) is None,
{
    match get_member(j, key) {
        None => Some(None),
        Some(Json::Null) => Some(None),
        Some(Json::Number(t)) => Some(Some(t.clone())),
        _ => None,
    }
}

} // verus!
