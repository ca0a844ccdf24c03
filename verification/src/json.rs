//! Reading fields out of JSON documents with `serde_json`.
use vstd::prelude::*;
use crate::text::opt_view;

verus! {

/// What `serde_json` makes of `text` and its top-level `key`: the parse
/// error's message, or the field's value when it is a string (none when the
/// document is no object, has no such field, or the field is no string).
pub uninterp spec fn json_string_field(text: Seq<char>, key: Seq<char>) -> Result<
    Option<Seq<char>>,
    Seq<char>,
>;

/// What `serde_json` makes of a `package.json` text: the parse error's
/// message, or the entries of its `dependencies` object in the map's order
/// (none when there is no such object), each with the string in its
/// `version` field if there is one.
pub uninterp spec fn json_dependencies(text: Seq<char>) -> Result<
    Option<Seq<(Seq<char>, Option<Seq<char>>)>>,
    Seq<char>,
>;

/// A field read as plain values.
pub open spec fn field_view(f: Result<Option<String>, String>) -> Result<Option<Seq<char>>, Seq<char>> {
    match f {
        Ok(v) => Ok(opt_view(v)),
        Err(e) => Err(e@),
    }
}

pub open spec fn dependency_views(v: Seq<(String, Option<String>)>) -> Seq<(Seq<char>, Option<Seq<char>>)> {
    v.map_values(|e: (String, Option<String>)| (e.0@, opt_view(e.1)))
}

/// Parses `text` with `serde_json::from_str` into a `serde_json::Value` and
/// reads `key` with `Value::get` and `Value::as_str`; the outcome is named
/// `json_string_field`. The text is parsed before any key is read, so
/// whether the outcome is an error does not depend on the key.
#[verifier::external_body]
pub(crate) fn string_field(text: &str, key: &str) -> (r: Result<Option<String>, String>)
    ensures
        forall|k: Seq<char>| (#[trigger] json_string_field(text@, k) is Ok) == (r is Ok),
        match r {
            Ok(v) => json_string_field(text@, key@) == Ok::<Option<Seq<char>>, Seq<char>>(
                opt_view(v),
            ),
            Err(e) => json_string_field(text@, key@) == Err::<Option<Seq<char>>, Seq<char>>(e@),
        },
{
    match serde_json::from_str::<serde_json::Value>(text) {
        Ok(v) => Ok(v.get(key).and_then(|x| x.as_str()).map(|s| s.to_string())),
        Err(e) => Err(e.to_string()),
    }
}

/// Parses `text` with `serde_json::from_str` and hands out the entries of
/// its `dependencies` object (`Value::get`, `Value::as_object`), each with
/// the string of its `version` field; the outcome is named
/// `json_dependencies`.
#[verifier::external_body]
pub(crate) fn dependencies(text: &str) -> (r: Result<Option<Vec<(String, Option<String>)>>, String>)
    ensures
        match r {
            Ok(Some(v)) => json_dependencies(text@) == Ok::<
                Option<Seq<(Seq<char>, Option<Seq<char>>)>>,
                Seq<char>,
            >(Some(dependency_views(v@))),
            Ok(None) => json_dependencies(text@) == Ok::<
                Option<Seq<(Seq<char>, Option<Seq<char>>)>>,
                Seq<char>,
            >(None),
            Err(e) => json_dependencies(text@) == Err::<
                Option<Seq<(Seq<char>, Option<Seq<char>>)>>,
                Seq<char>,
            >(e@),
        },
{
    match serde_json::from_str::<serde_json::Value>(text) {
        Ok(v) => Ok(v.get("dependencies").and_then(|d| d.as_object()).map(|m| {
            m.iter().map(|(k, x)| {
                (k.clone(), x.get("version").and_then(|s| s.as_str()).map(|s| s.to_string()))
            }).collect()
        })),
        Err(e) => Err(e.to_string()),
    }
}

} // verus!
