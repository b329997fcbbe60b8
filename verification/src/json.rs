//! Reading fields of JSON documents (tool arguments and tool results), as
//! `serde_json` parses them.
use vstd::prelude::*;

verus! {

/// The string stored under `key` in the JSON object that `json` parses to,
/// as `serde_json::from_str::<Value>(json)` then `get(key)` then `as_str()`
/// give it; `None` when the text does not parse, is not an object, lacks the
/// key, or holds a non-string there.
pub uninterp spec fn json_string_field(json: Seq<char>, key: Seq<char>) -> Option<Seq<char>>;

/// The boolean stored under `key`, read the same way with `as_bool()`.
pub uninterp spec fn json_bool_field(json: Seq<char>, key: Seq<char>) -> Option<bool>;

/// The entries of the JSON object that `json` parses to, in the object's
/// iteration order, each key with its value's string (`None` for a
/// non-string value); `None` when the text is not a JSON object.
pub uninterp spec fn json_entries(json: Seq<char>) -> Option<Seq<(Seq<char>, Option<Seq<char>>)>>;

pub open spec fn entry_view(e: (String, Option<String>)) -> (Seq<char>, Option<Seq<char>>) {
    (e.0@, match e.1 {
        Some(s) => Some(s@),
        None => None,
    })
}

/// Whether the JSON text `json` parses to a value that `Value::get(key)`
/// finds something in (an object holding `key`).
pub uninterp spec fn json_has_key(json: Seq<char>, key: Seq<char>) -> bool;

/// `serde_json::to_string_pretty` of the value that `json` parses to.
pub uninterp spec fn json_pretty(json: Seq<char>) -> Option<Seq<char>>;

/// Parses `json` with `serde_json::from_str::<serde_json::Value>` and reads
/// the string under `key` (`Value::get`, `Value::as_str`). The result is the
/// named value; nothing more is claimed of JSON parsing.
#[verifier::external_body]
pub(crate) fn json_str_field(json: &str, key: &str) -> (r: Option<String>)
    ensures
        match r {
            Some(s) => json_string_field(json@, key@) == Some(s@),
            None => json_string_field(json@, key@) is None,
        },
{
    let v = serde_json::from_str::<serde_json::Value>(json).ok()?;
    let s = v.get(key)?.as_str()?;
    Some(s.to_string())
}

/// Parses `json` with `serde_json::from_str::<serde_json::Value>` and reads
/// the boolean under `key` (`Value::get`, `Value::as_bool`). The result is
/// the named value.
#[verifier::external_body]
pub(crate) fn json_bool_field_of(json: &str, key: &str) -> (r: Option<bool>)
    ensures
        r == json_bool_field(json@, key@),
{
    let v = serde_json::from_str::<serde_json::Value>(json).ok()?;
    v.get(key)?.as_bool()
}

/// Parses `json` with `serde_json::from_str::<serde_json::Value>` and tells
/// whether `Value::get(key)` finds a value. The result is the named value.
#[verifier::external_body]
pub(crate) fn json_has_field(json: &str, key: &str) -> (r: bool)
    ensures
        r == json_has_key(json@, key@),
{
    match serde_json::from_str::<serde_json::Value>(json) {
        Ok(v) => v.get(key).is_some(),
        Err(_) => false,
    }
}

/// Parses `json` with `serde_json::from_str::<serde_json::Value>` and lists
/// the entries of the object (`Value::as_object`), each value read with
/// `Value::as_str`. The result is the named value.
#[verifier::external_body]
pub(crate) fn json_entries_of(json: &str) -> (r: Option<Vec<(String, Option<String>)>>)
    ensures
        match r {
            Some(v) => json_entries(json@) == Some(v@.map_values(|e: (String, Option<String>)| entry_view(e))),
            None => json_entries(json@) is None,
        },
{
    let value = serde_json::from_str::<serde_json::Value>(json).ok()?;
    let obj = value.as_object()?;
    let mut out = Vec::new();
    for (k, v) in obj {
        out.push((k.clone(), v.as_str().map(String::from)));
    }
    Some(out)
}

/// The objects listed under `list` in the JSON object that `json` parses
/// to, each read as its string under `a`, its string under `b` and its
/// boolean under `flag` (`None` for a missing or differently typed field);
/// `None` when the text does not parse or `list` holds no array.
pub uninterp spec fn json_object_list(
    json: Seq<char>,
    list: Seq<char>,
    a: Seq<char>,
    b: Seq<char>,
    flag: Seq<char>,
) -> Option<Seq<(Option<Seq<char>>, Option<Seq<char>>, Option<bool>)>>;

pub open spec fn triple_view(e: (Option<String>, Option<String>, Option<bool>)) -> (Option<Seq<char>>, Option<Seq<char>>, Option<bool>) {
    (
        match e.0 {
            Some(s) => Some(s@),
            None => None,
        },
        match e.1 {
            Some(s) => Some(s@),
            None => None,
        },
        e.2,
    )
}

/// Parses `json` with `serde_json::from_str::<serde_json::Value>`, takes
/// the array under `list` (`Value::get`, `Value::as_array`) and reads each
/// element with `Value::get` and `as_str` / `as_bool`. The result is the
/// named value.
#[verifier::external_body]
pub(crate) fn json_object_list_of(json: &str, list: &str, a: &str, b: &str, flag: &str) -> (r: Option<
    Vec<(Option<String>, Option<String>, Option<bool>)>,
>)
    ensures
        match r {
            Some(v) => json_object_list(json@, list@, a@, b@, flag@) == Some(v@.map_values(|e: (Option<String>, Option<String>, Option<bool>)| triple_view(e))),
            None => json_object_list(json@, list@, a@, b@, flag@) is None,
        },
{
    let value = serde_json::from_str::<serde_json::Value>(json).ok()?;
    let mut out = Vec::new();
    for e in value.get(list)?.as_array()? {
        let x = e.get(a).and_then(|v| v.as_str()).map(String::from);
        let y = e.get(b).and_then(|v| v.as_str()).map(String::from);
        out.push((x, y, e.get(flag).and_then(|v| v.as_bool())));
    }
    Some(out)
}

/// Parses `json` with `serde_json::from_str::<serde_json::Value>` and
/// renders it with `serde_json::to_string_pretty`. The result is the named
/// value.
#[verifier::external_body]
pub(crate) fn json_pretty_of(json: &str) -> (r: Option<String>)
    ensures
        match r {
            Some(s) => json_pretty(json@) == Some(s@),
            None => json_pretty(json@) is None,
        },
{
    let v = serde_json::from_str::<serde_json::Value>(json).ok()?;
    serde_json::to_string_pretty(&v).ok()
}

} // verus!
