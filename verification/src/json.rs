//! JSON texts built with `serde_json`: flat objects of string fields.
use vstd::prelude::*;

verus! {

/// What `serde_json::to_string` gives for an object whose fields are the given
/// (name, string value) pairs.
pub uninterp spec fn json_object_of(fields: Seq<(Seq<char>, Seq<char>)>) -> Seq<char>;

/// The (name, value) pairs as texts.
pub open spec fn field_views(fields: Seq<(String, String)>) -> Seq<(Seq<char>, Seq<char>)> {
    fields.map_values(|f: (String, String)| (f.0@, f.1@))
}

/// `serde_json::to_string` of a map from field names to string values, named
/// by `json_object_of`; what the text looks like (field order, escaping) is
/// not stated. A map with string keys always serialises, so the error arm is
/// never taken.
#[verifier::external_body]
pub(crate) fn json_object_text(fields: &Vec<(String, String)>) -> (r: String)
    ensures
        r@ == json_object_of(field_views(fields@)),
{
    let map: std::collections::BTreeMap<&str, &str> = fields.iter().map(|f| (f.0.as_str(), f.1.as_str())).collect();
    match serde_json::to_string(&map) {
        Ok(s) => s,
        Err(_) => String::new(),
    }
}

} // verus!
