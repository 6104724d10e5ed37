//! Trusted boundary to the JSON reader: configuration documents are parsed
//! outside, and reach the library as plain field lists and string maps.
use vstd::prelude::*;

verus! {

#[verifier::external_type_specification]
#[verifier::external_body]
pub struct ExValue(serde_json::Value);

/// The top-level field names of the text read as a JSON object, or nothing
/// when the text is not a well-formed object.
pub uninterp spec fn doc_field_names(text: Seq<char>) -> Option<Set<Seq<char>>>;

/// The name-to-text mapping a JSON value holds, when it is an object whose
/// field values are all strings.
pub uninterp spec fn string_map_of(v: serde_json::Value) -> Option<Map<Seq<char>, Seq<char>>>;

/// The text a JSON value holds, when it is a string.
pub uninterp spec fn string_of(v: serde_json::Value) -> Option<Seq<char>>;

/// The text of the named top-level field of the document, when the
/// document is a well-formed object and that field holds a string.
pub uninterp spec fn doc_string_field(text: Seq<char>, name: Seq<char>) -> Option<Seq<char>>;

/// The mapping of the named top-level field of the document, when the
/// document is a well-formed object and that field holds an object of
/// strings.
pub uninterp spec fn doc_map_field(text: Seq<char>, name: Seq<char>) -> Option<
    Map<Seq<char>, Seq<char>>,
>;

/// Relies on serde_json::from_str: the text parses exactly when it is a
/// well-formed JSON object, giving one entry per top-level field (a
/// duplicated field keeps its last value); each field's value carries the
/// named field content of the document, and a field the document lacks
/// has none.
#[verifier::external_body]
pub(crate) fn parse_object(text: &str) -> (r: Result<Vec<(String, serde_json::Value)>, String>)
    ensures
        r is Ok <==> doc_field_names(text@) is Some,
        r matches Ok(fields) ==> {
            &&& forall|a: int, b: int| 0 <= a < b < fields@.len() ==> fields@[a].0@ != fields@[b].0@
            &&& forall|i: int|
                0 <= i < fields@.len() ==> doc_field_names(text@).unwrap().contains(
                    #[trigger] fields@[i].0@,
                )
            &&& forall|k: Seq<char>|
                doc_field_names(text@).unwrap().contains(k) ==> exists|i: int|
                    0 <= i < fields@.len() && #[trigger] fields@[i].0@ == k
        },
        r matches Ok(fields) ==> forall|i: int|
            0 <= i < fields@.len() ==> string_of(#[trigger] fields@[i].1) == doc_string_field(
                text@,
                fields@[i].0@,
            ),
        r matches Ok(fields) ==> forall|i: int|
            0 <= i < fields@.len() ==> string_map_of(#[trigger] fields@[i].1) == doc_map_field(
                text@,
                fields@[i].0@,
            ),
        r matches Ok(fields) ==> forall|k: Seq<char>|
            !doc_field_names(text@).unwrap().contains(k) ==> #[trigger] doc_string_field(text@, k)
                is None,
        r matches Ok(fields) ==> forall|k: Seq<char>|
            !doc_field_names(text@).unwrap().contains(k) ==> #[trigger] doc_map_field(text@, k)
                is None,
        r is Err ==> forall|k: Seq<char>| #[trigger] doc_string_field(text@, k) is None,
        r is Err ==> forall|k: Seq<char>| #[trigger] doc_map_field(text@, k) is None,
{
    match serde_json::from_str::<std::collections::HashMap<String, serde_json::Value>>(text) {
        Ok(m) => Ok(m.into_iter().collect()),
        Err(e) => Err(e.to_string()),
    }
}

/// Relies on serde_json::from_value: an object whose field values are all
/// strings deserializes as a name-to-text mapping, and nothing else does.
#[verifier::external_body]
pub(crate) fn value_as_string_map(v: &serde_json::Value) -> (r: Option<Vec<(String, String)>>)
    ensures
        r is Some <==> string_map_of(*v) is Some,
        r matches Some(entries) ==> {
            &&& forall|a: int, b: int|
                0 <= a < b < entries@.len() ==> entries@[a].0@ != entries@[b].0@
            &&& crate::aliases::pairs_map(crate::aliases::pair_views(entries@)) == string_map_of(
                *v,
            ).unwrap()
        },
{
    match serde_json::from_value::<std::collections::HashMap<String, String>>(v.clone()) {
        Ok(m) => Some(m.into_iter().collect()),
        Err(_) => None,
    }
}

/// Relies on serde_json::from_value: a JSON string deserializes as its text,
/// and nothing else does.
#[verifier::external_body]
pub(crate) fn value_as_string(v: &serde_json::Value) -> (r: Option<String>)
    ensures
        r is Some <==> string_of(*v) is Some,
        r matches Some(s) ==> s@ == string_of(*v).unwrap(),
{
    match serde_json::from_value::<String>(v.clone()) {
        Ok(s) => Some(s),
        Err(_) => None,
    }
}

} // verus!
