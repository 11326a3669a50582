//! The JSON text form in which crate identifiers sit in the store's crate
//! and result tables: a crate payload column holds a JSON string.

use vstd::prelude::*;

verus! {

/// The JSON text that encodes a given string.
pub uninterp spec fn json_text_of(s: Seq<char>) -> Seq<char>;

/// The string a text decodes to when it is a JSON string, `None` otherwise.
pub uninterp spec fn json_parse_text(s: Seq<char>) -> Option<Seq<char>>;

/// Relies on serde_json's `to_string`: encoding a string slice never fails
/// and depends on its characters alone, and `from_str` parses the encoding
/// back to an equal string.
#[verifier::external_body]
pub fn encode_crate_payload(s: &str) -> (r: String)
    ensures
        r@ == json_text_of(s@),
        json_parse_text(r@) == Some(s@),
{
    serde_json::to_string(s).unwrap_or_default()
}

/// Relies on serde_json's `from_str::<String>`: whether a text is a JSON
/// string, and which string it is, depends on the text alone.
#[verifier::external_body]
pub fn decode_crate_payload(s: &str) -> (r: Option<String>)
    ensures
        match r {
            Some(t) => json_parse_text(s@) == Some(t@),
            None => json_parse_text(s@) is None,
        },
{
    match serde_json::from_str::<String>(s) {
        Ok(t) => Some(t),
        Err(_) => None,
    }
}

} // verus!
