//! The calls into `serde_json` that snippet handling makes. A JSON value is
//! seen through the members it holds when it is an object: a map from each
//! key to the compact JSON text of its value.

use vstd::prelude::*;

verus! {

#[verifier::external_type_specification]
#[verifier::external_body]
pub struct ExJsonValue(serde_json::Value);

#[verifier::external_type_specification]
#[verifier::external_body]
pub struct ExJsonError(serde_json::Error);

/// What parsing `s` as JSON gives: `None` when `s` is not valid JSON,
/// `Some(None)` when it is valid but not an object, and `Some(Some(m))` for
/// an object whose members are `m` (key to compact text of the value).
pub uninterp spec fn json_parse_view(s: Seq<char>) -> Option<Option<Map<Seq<char>, Seq<char>>>>;

/// The members of a JSON value when it is an object (key to compact text of
/// the value), `None` when it is not an object.
pub uninterp spec fn json_members(v: serde_json::Value) -> Option<Map<Seq<char>, Seq<char>>>;

/// The compact JSON text of a value (`serde_json::to_string`).
pub uninterp spec fn json_text(v: serde_json::Value) -> Seq<char>;

/// The pretty-printed JSON text (`serde_json::to_string_pretty`) of the
/// object with the given members.
pub uninterp spec fn json_pretty_object(members: Map<Seq<char>, Seq<char>>) -> Seq<char>;

/// Parses `s` as JSON.
/// Trusted: `serde_json::from_str::<serde_json::Value>`; what it gives is
/// named by `json_parse_view`, and the value holds the members named there.
#[verifier::external_body]
pub(crate) fn json_parse(s: &str) -> (r: Result<serde_json::Value, serde_json::Error>)
    ensures
        r is Ok <==> json_parse_view(s@) is Some,
        r matches Ok(v) ==> json_parse_view(s@) == Some(json_members(v)),
{
    serde_json::from_str::<serde_json::Value>(s)
}

/// The message of a JSON error.
/// Trusted: `serde_json::Error`'s `Display`, through `to_string`; nothing is
/// claimed of the text.
#[verifier::external_body]
pub(crate) fn json_error_text(e: &serde_json::Error) -> String {
    e.to_string()
}

/// An empty JSON object.
/// Trusted: `serde_json::Value::Object(serde_json::Map::new())`.
#[verifier::external_body]
pub(crate) fn json_empty_object() -> (r: serde_json::Value)
    ensures
        json_members(r) == Some(Map::<Seq<char>, Seq<char>>::empty()),
{
    serde_json::Value::Object(serde_json::Map::new())
}

/// The keys of a JSON object, each once; `None` for a value that is not an
/// object.
/// Trusted: `serde_json::Value::as_object`, then `Map::keys`, cloned.
#[verifier::external_body]
pub(crate) fn json_object_keys(v: &serde_json::Value) -> (r: Option<Vec<String>>)
    ensures
        r is Some <==> json_members(*v) is Some,
        r matches Some(keys) ==> {
            &&& forall|i: int, j: int| 0 <= i < j < keys.len() ==> keys[i]@ != keys[j]@
            &&& forall|k: Seq<char>| #[trigger] json_members(*v)->0.dom().contains(k) <==> exists|i: int|
                0 <= i < keys.len() && (#[trigger] keys[i])@ == k
        },
{
    v.as_object().map(|m| m.keys().cloned().collect())
}

/// A copy of the member `key` of an object, if it has one.
/// Trusted: `serde_json::Value::get` on an object, cloned.
#[verifier::external_body]
pub(crate) fn json_member(v: &serde_json::Value, key: &str) -> (r: Option<serde_json::Value>)
    requires
        json_members(*v) is Some,
    ensures
        r is Some <==> json_members(*v)->0.dom().contains(key@),
        r matches Some(m) ==> json_text(m) == json_members(*v)->0[key@],
{
    v.get(key).cloned()
}

/// Sets member `key` of an object to `value`.
/// Trusted: `serde_json::Map::insert` on the object inside `v`.
#[verifier::external_body]
pub(crate) fn json_insert(v: &mut serde_json::Value, key: String, value: serde_json::Value)
    requires
        json_members(*old(v)) is Some,
    ensures
        json_members(*final(v)) == Some(json_members(*old(v))->0.insert(key@, json_text(value))),
{
    if let Some(m) = v.as_object_mut() {
        m.insert(key, value);
    }
}

/// The pretty-printed text of a JSON object. Writing a `Value` cannot fail:
/// its maps only have string keys.
/// Trusted: `serde_json::to_string_pretty`.
#[verifier::external_body]
pub(crate) fn json_to_pretty(v: &serde_json::Value) -> (r: Result<String, serde_json::Error>)
    requires
        json_members(*v) is Some,
    ensures
        r is Ok,
        r matches Ok(s) ==> s@ == json_pretty_object(json_members(*v)->0),
{
    serde_json::to_string_pretty(v)
}

} // verus!
