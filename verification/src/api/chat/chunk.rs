//! The JSON chunks of a streamed completion: what the client is shown of
//! each one, and the reply text it carries.
use vstd::prelude::*;

verus! {

#[verifier::external_type_specification]
#[verifier::external_body]
pub struct ExJsonValue(serde_json::Value);

/// Whether `text` parses as one JSON value (what `serde_json::from_str`
/// accepts).
pub uninterp spec fn json_parses(text: Seq<char>) -> bool;

/// `serde_json::from_str::<Value>`: the value `text` holds, when it parses.
#[verifier::external_body]
fn json_parse(text: &str) -> (r: Option<serde_json::Value>)
    ensures
        r is Some <==> json_parses(text@),
{
    serde_json::from_str::<serde_json::Value>(text).ok()
}

/// `serde_json::to_string`: the compact JSON text of `v`, or `None` where it
/// fails.  What the text is rests on the value, which is opaque here.
#[verifier::external_body]
fn json_to_text(v: &serde_json::Value) -> Option<String> {
    serde_json::to_string(v).ok()
}

/// `Value::get` with a key: the member `key` of an object, cloned; `None`
/// for another value or a missing member.
#[verifier::external_body]
fn json_get_key(v: &serde_json::Value, key: &str) -> Option<serde_json::Value> {
    v.get(key).cloned()
}

/// `Value::get` with an index: element `i` of an array, cloned; `None` for
/// another value or an index past its end.
#[verifier::external_body]
fn json_get_index(v: &serde_json::Value, i: usize) -> Option<serde_json::Value> {
    v.get(i).cloned()
}

/// `Value::as_str`: the text of a JSON string, `None` for another value.
#[verifier::external_body]
fn json_as_text(v: &serde_json::Value) -> Option<String> {
    v.as_str().map(String::from)
}

/// `Map::insert` on an object: sets member `key` to `val`; any other value is
/// left as it is.
#[verifier::external_body]
fn json_insert(v: &mut serde_json::Value, key: &str, val: serde_json::Value) {
    if let serde_json::Value::Object(m) = v {
        m.insert(key.to_string(), val);
    }
}

/// `Value::String`: the JSON string `s`.
#[verifier::external_body]
fn json_text(s: &str) -> serde_json::Value {
    serde_json::Value::String(s.to_string())
}

/// `Value::Number` from an `i64`.
#[verifier::external_body]
fn json_int(n: i64) -> serde_json::Value {
    serde_json::Value::Number(n.into())
}

/// What the client is shown of a chunk: the public id, creation time and
/// model name `saelora` in place of the backend's, and the backend's error
/// message replaced by `backend error`.  Text that is not JSON, or that cannot
/// be written back, passes unchanged.
pub fn rewrite_chunk_json(raw: &str, public_id: &str, public_created: i64) -> (r: String)
    ensures
        !json_parses(raw@) ==> r@ == raw@,
{
    let mut v = match json_parse(raw) {
        Some(v) => v,
        None => {
            return String::from_str(raw);
        },
    };
    json_insert(&mut v, "id", json_text(public_id));
    json_insert(&mut v, "created", json_int(public_created));
    json_insert(&mut v, "model", json_text("saelora"));
    match json_get_key(&v, "error") {
        Some(mut err) => {
            json_insert(&mut err, "message", json_text("backend error"));
            json_insert(&mut v, "error", err);
        },
        None => {},
    }
    match json_to_text(&v) {
        Some(t) => t,
        None => String::from_str(raw),
    }
}

/// The reply text a chunk carries: `choices[0].delta.content` when it is a
/// non-empty string; nothing for text that is not JSON or holds none.
pub fn delta_content(raw: &str) -> (r: Option<String>)
    ensures
        !json_parses(raw@) ==> r is None,
        r matches Some(s) ==> s@.len() > 0,
{
    let v = match json_parse(raw) {
        Some(v) => v,
        None => {
            return None;
        },
    };
    let choices = match json_get_key(&v, "choices") {
        Some(c) => c,
        None => {
            return None;
        },
    };
    let first = match json_get_index(&choices, 0) {
        Some(c) => c,
        None => {
            return None;
        },
    };
    let delta = match json_get_key(&first, "delta") {
        Some(d) => d,
        None => {
            return None;
        },
    };
    let content = match json_get_key(&delta, "content") {
        Some(c) => c,
        None => {
            return None;
        },
    };
    match json_as_text(&content) {
        Some(t) => {
            if t.unicode_len() == 0 {
                None
            } else {
                Some(t)
            }
        },
        None => None,
    }
}

} // verus!
