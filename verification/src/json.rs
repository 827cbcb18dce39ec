//! Reading values out of JSON texts received from upstreams and stored in
//! the database, through `serde_json`.
use vstd::prelude::*;

verus! {

/// One step into a JSON document: an object key or an array position.
#[derive(Debug, Clone, Copy)]
pub enum JsonStep {
    Key(&'static str),
    Index(usize),
}

/// The string reached by `path` in the JSON text `body`.
pub uninterp spec fn json_text_at(body: Seq<char>, path: Seq<JsonStep>) -> Option<Seq<char>>;

/// Length of the array reached by `path` in the JSON text `body`.
pub uninterp spec fn json_len_at(body: Seq<char>, path: Seq<JsonStep>) -> Option<usize>;

/// Whether the JSON text `body` is an object with the key `key`.
pub uninterp spec fn json_has_key(body: Seq<char>, key: Seq<char>) -> bool;

/// Parses `body` with `serde_json::from_str` into a `serde_json::Value` (a
/// body that does not parse reads as `Null`), follows `path` with the
/// `Index` operators of `Value` (a missing step gives `Null`), and takes the
/// string found there with `as_str`. The result is only named.
#[verifier::external_body]
pub(crate) fn read_json_text(body: &str, path: &Vec<JsonStep>) -> (r: Option<String>)
    ensures
        match r {
            Some(s) => json_text_at(body@, path@) == Some(s@),
            None => json_text_at(body@, path@) is None,
        },
{
    let root: serde_json::Value = serde_json::from_str(body).unwrap_or_default();
    let mut v = &root;
    for step in path.iter() {
        v = match step {
            JsonStep::Key(k) => &v[*k],
            JsonStep::Index(i) => &v[*i],
        };
    }
    v.as_str().map(String::from)
}

/// Parses `body` as `read_json_text` does, follows `path` the same way, and
/// takes the length of the array found there with `as_array`. The result is
/// only named.
#[verifier::external_body]
pub(crate) fn read_json_len(body: &str, path: &Vec<JsonStep>) -> (r: Option<usize>)
    ensures
        r == json_len_at(body@, path@),
{
    let root: serde_json::Value = serde_json::from_str(body).unwrap_or_default();
    let mut v = &root;
    for step in path.iter() {
        v = match step {
            JsonStep::Key(k) => &v[*k],
            JsonStep::Index(i) => &v[*i],
        };
    }
    v.as_array().map(|a| a.len())
}

/// Parses `body` as `read_json_text` does and asks `Value::get` for `key`.
/// The verdict is only named.
#[verifier::external_body]
pub(crate) fn read_json_has_key(body: &str, key: &str) -> (r: bool)
    ensures
        r == json_has_key(body@, key@),
{
    let root: serde_json::Value = serde_json::from_str(body).unwrap_or_default();
    root.get(key).is_some()
}

/// The items of the array reached by `path` in the JSON text `body`, each as
/// its string if it is one.
pub uninterp spec fn json_items_at(body: Seq<char>, path: Seq<JsonStep>) -> Option<Seq<Option<Seq<char>>>>;

/// Text views of optional strings.
pub open spec fn opt_views(v: Seq<Option<String>>) -> Seq<Option<Seq<char>>> {
    v.map_values(|o: Option<String>| match o { Some(s) => Some(s@), None => None })
}

/// Parses `body` as `read_json_text` does, follows `path` the same way, and
/// takes the array found there with `as_array`, each item by `as_str`. The
/// result is only named.
#[verifier::external_body]
pub(crate) fn read_json_items(body: &str, path: &Vec<JsonStep>) -> (r: Option<Vec<Option<String>>>)
    ensures
        match r {
            Some(v) => json_items_at(body@, path@) == Some(opt_views(v@)),
            None => json_items_at(body@, path@) is None,
        },
{
    let root: serde_json::Value = serde_json::from_str(body).unwrap_or_default();
    let mut v = &root;
    for step in path.iter() {
        v = match step {
            JsonStep::Key(k) => &v[*k],
            JsonStep::Index(i) => &v[*i],
        };
    }
    v.as_array().map(|a| a.iter().map(|m| m.as_str().map(String::from)).collect())
}

} // verus!
