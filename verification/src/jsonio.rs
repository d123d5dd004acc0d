//! Reading fields out of incoming JSON documents, through serde_json.

use vstd::prelude::*;

verus! {

/// Whether the text is a well-formed JSON document.
pub uninterp spec fn is_json(doc: Seq<char>) -> bool;

/// The string value found in the JSON document `doc` at the JSON pointer
/// path `pointer`, if the document is well-formed, the path leads to a
/// value, and that value is a string.
pub uninterp spec fn json_string_at(doc: Seq<char>, pointer: Seq<char>) -> Option<Seq<char>>;

/// Relies on `serde_json::from_str::<Value>`: whether the text parses as a
/// JSON document, a function of the text alone.
#[verifier::external_body]
pub(crate) fn json_is_valid(doc: &str) -> (r: bool)
    ensures
        r == is_json(doc@),
{
    serde_json::from_str::<serde_json::Value>(doc).is_ok()
}

/// Relies on `serde_json::from_str::<Value>`, `Value::pointer` and
/// `Value::as_str`: the string value at a JSON pointer path, a function of
/// the document and the path alone; `None` whenever the document does not
/// parse, the path leads nowhere, or the value there is not a string.
#[verifier::external_body]
pub(crate) fn json_string_lookup(doc: &str, pointer: &str) -> (r: Option<String>)
    ensures
        json_string_at(doc@, pointer@) == match r {
            Some(s) => Some(s@),
            None => None::<Seq<char>>,
        },
        !is_json(doc@) ==> r is None,
{
    match serde_json::from_str::<serde_json::Value>(doc) {
        Ok(v) => match v.pointer(pointer) {
            Some(x) => match x.as_str() {
                Some(s) => Some(s.to_string()),
                None => None,
            },
            None => None,
        },
        Err(_) => None,
    }
}

} // verus!
