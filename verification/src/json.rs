//! What the library reads of JSON text, through `serde_json`.
use vstd::prelude::*;
use crate::text::opt_view;

verus! {

/// One step of a path into a JSON document: a member of an object, or a position
/// in an array.
#[derive(Debug, Clone)]
pub enum JsonStep {
    Member(String),
    Position(usize),
}

/// A step as a plain value: `(-1, name)` for a member, `(i, "")` for position `i`.
pub open spec fn step_view(s: JsonStep) -> (int, Seq<char>) {
    match s {
        JsonStep::Member(m) => (-1, m@),
        JsonStep::Position(i) => (i as int, Seq::empty()),
    }
}

/// The steps of a path as plain values.
pub open spec fn steps(p: Seq<JsonStep>) -> Seq<(int, Seq<char>)> {
    p.map_values(|s: JsonStep| step_view(s))
}

/// What `serde_json::to_string_pretty` prints of the member `member` of the JSON
/// document `doc` (`null` when there is no such member; empty when `doc` is not JSON).
pub uninterp spec fn json_member_pretty(doc: Seq<char>, member: Seq<char>) -> Seq<char>;

/// The string at `path` in the JSON document `doc`, if `doc` parses and a string is there.
pub uninterp spec fn json_str_at(doc: Seq<char>, path: Seq<(int, Seq<char>)>) -> Option<Seq<char>>;

/// The boolean at `path` in the JSON document `doc`, if `doc` parses and a boolean is there.
pub uninterp spec fn json_bool_at(doc: Seq<char>, path: Seq<(int, Seq<char>)>) -> Option<bool>;

/// Parses `doc` with `serde_json::from_str`, takes its member `member` by indexing the
/// `Value` with a `&str`, and prints it with `serde_json::to_string_pretty`. Trusted:
/// the result is only named, by [`json_member_pretty`], as a function of both arguments.
#[verifier::external_body]
pub(crate) fn member_pretty(doc: &str, member: &str) -> (s: String)
    ensures
        s@ == json_member_pretty(doc@, member@),
{
    match serde_json::from_str::<serde_json::Value>(doc) {
        Ok(v) => serde_json::to_string_pretty(&v[member]).unwrap_or_default(),
        Err(_) => String::new(),
    }
}

/// Parses `doc` with `serde_json::from_str`, indexes the `Value` along `path` (a `&str`
/// for a member, a `usize` for a position; a missing step gives `Null`), and reads a
/// string with `Value::as_str`. Trusted: the result is only named, by [`json_str_at`],
/// as a function of both arguments.
#[verifier::external_body]
pub(crate) fn str_at(doc: &str, path: &Vec<JsonStep>) -> (r: Option<String>)
    ensures
        opt_view(r) == json_str_at(doc@, steps(path@)),
{
    let v: serde_json::Value = match serde_json::from_str(doc) {
        Ok(v) => v,
        Err(_) => return None,
    };
    let mut at = &v;
    for s in path {
        at = match s {
            JsonStep::Member(m) => &at[m.as_str()],
            JsonStep::Position(i) => &at[*i],
        };
    }
    at.as_str().map(String::from)
}

/// As [`str_at`], reading a boolean with `Value::as_bool`. Trusted: the result is only
/// named, by [`json_bool_at`], as a function of both arguments.
#[verifier::external_body]
pub(crate) fn bool_at(doc: &str, path: &Vec<JsonStep>) -> (r: Option<bool>)
    ensures
        r == json_bool_at(doc@, steps(path@)),
{
    let v: serde_json::Value = match serde_json::from_str(doc) {
        Ok(v) => v,
        Err(_) => return None,
    };
    let mut at = &v;
    for s in path {
        at = match s {
            JsonStep::Member(m) => &at[m.as_str()],
            JsonStep::Position(i) => &at[*i],
        };
    }
    at.as_bool()
}

} // verus!
