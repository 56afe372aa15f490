//! JSON objects of string members, as `serde_json` writes them.

use vstd::prelude::*;

verus! {

/// The compact text `serde_json` writes for the object whose members are
/// `entries` (names and string values), inserted in order into a
/// `serde_json::Map`.
pub uninterp spec fn json_object(entries: Seq<(Seq<char>, Seq<char>)>) -> Seq<char>;

/// Inserts each name and string value, in order, into a `serde_json::Map`
/// with `Map::insert`, then renders the object with `Value`'s `Display`.
/// The contract names the text, which depends on the entries alone.
#[verifier::external_body]
pub(crate) fn json_object_text(entries: &[(&str, &str)]) -> (out: String)
    ensures
        out@ == json_object(entries@.map_values(|e: (&str, &str)| (e.0@, e.1@))),
{
    let mut object = serde_json::Map::new();
    for (name, value) in entries {
        object.insert((*name).to_owned(), serde_json::Value::String((*value).to_owned()));
    }
    serde_json::Value::Object(object).to_string()
}

} // verus!
