//! JSON arrays of strings, as stored in the `pages_json` column.  Encoding and
//! decoding are serde_json's; their results are named here.

use vstd::prelude::*;

verus! {

/// What `serde_json::to_string` gives for a list of strings.
pub uninterp spec fn json_string_list(items: Seq<Seq<char>>) -> Seq<char>;

/// What `serde_json::from_str::<Vec<String>>` gives for a text: the strings of a JSON
/// array of strings, or `None` where the text is not one.
pub uninterp spec fn parsed_json_string_list(text: Seq<char>) -> Option<Seq<Seq<char>>>;

/// `serde_json::to_string(items).ok()`.  The contract claims that the result is the
/// named `json_string_list` of the strings: serializing a sequence of strings into a
/// byte buffer has no failing step in serde_json (its writer is a `Vec`).
#[verifier::external_body]
pub(crate) fn to_json_string_list(items: &Vec<String>) -> (r: Option<String>)
    ensures
        r is Some,
        r matches Some(t) ==> t@ == json_string_list(items@.map_values(|s: String| s@)),
{
    serde_json::to_string(items).ok()
}

/// `serde_json::from_str::<Vec<String>>(text).ok()`.  The contract claims that the
/// result is the named `parsed_json_string_list` of the text.
#[verifier::external_body]
pub(crate) fn parse_json_string_list(text: &str) -> (r: Option<Vec<String>>)
    ensures
        match r {
            Some(v) => parsed_json_string_list(text@) == Some(v@.map_values(|s: String| s@)),
            None => parsed_json_string_list(text@) is None,
        },
{
    serde_json::from_str::<Vec<String>>(text).ok()
}

} // verus!
