//! The calls that the library makes into `serde_json`, `base64` and std's UTF-8 decoding.
use vstd::prelude::*;
use vstd::utf8::{decode_utf8, valid_utf8};
use crate::base64_text::base64_standard;
use crate::json_text::json_quoted;
use crate::properties::{object_text, pairs_view, sorted_keys};

verus! {

/// The text that `String::from_utf8_lossy` makes of `bytes`.
pub uninterp spec fn utf8_lossy_text(bytes: Seq<u8>) -> Seq<char>;

/// Quotes `s` as a JSON string literal.
///
/// Trusted: `serde_json::Value::String(..).to_string()`. Its compact writer puts a `"` before
/// and after the text, writes `"` and `\` as `\"` and `\\`, backspace, tab, line feed, form
/// feed and carriage return as `\b`, `\t`, `\n`, `\f`, `\r`, the other characters below
/// U+0020 as `\u00` and two lowercase hexadecimal digits, and every other character as it is:
/// `json_quoted`.
#[verifier::external_body]
pub fn json_quote(s: &str) -> (q: String)
    ensures
        q@ == json_quoted(s@),
{
    serde_json::Value::String(s.to_string()).to_string()
}

/// Writes the JSON object whose members are `entries`, each value a JSON string.
///
/// Trusted: collecting the pairs into a `serde_json::Value` (its `FromIterator<(K, V)>` makes
/// a `Value::Object`, each value a `Value::String`) and writing it with `to_string`. Without
/// the `preserve_order` feature the object's map is a `BTreeMap`, which walks its keys in
/// `String` order, so keys given in strictly increasing order come out in the order given. The
/// compact writer puts `{`, then the members `key:value` separated by `,`, then `}`, and quotes
/// each key and value as `json_quote` does.
#[verifier::external_body]
pub fn json_object(entries: &Vec<(String, String)>) -> (t: String)
    requires
        sorted_keys(pairs_view(entries@)),
    ensures
        t@ == object_text(
            pairs_view(entries@).map_values(
                |e: (Seq<char>, Seq<char>)| (json_quoted(e.0), json_quoted(e.1)),
            ),
        ),
{
    let object: serde_json::Value = entries.iter().cloned().collect();
    object.to_string()
}

/// Encodes `bytes` as standard, padded Base64.
///
/// Trusted: `base64::encode`, which writes the `STANDARD` alphabet (`A` to `Z`, `a` to `z`, `0` to `9`,
/// `+`, `/`) with `=` padding: `base64_standard`.
#[verifier::external_body]
pub fn base64_encode(bytes: &[u8]) -> (t: String)
    ensures
        t@ == base64_standard(bytes@),
{
    base64::encode(bytes)
}

/// Decodes `bytes` as UTF-8, or `None` when they are not valid UTF-8.
///
/// Trusted: `std::str::from_utf8`, documented to succeed exactly on valid UTF-8 and then to
/// hand back the same bytes as text.
#[verifier::external_body]
pub fn utf8_decode(bytes: &[u8]) -> (t: Option<String>)
    ensures
        t is Some <==> valid_utf8(bytes@),
        t matches Some(s) ==> s@ == decode_utf8(bytes@),
{
    match std::str::from_utf8(bytes) {
        Ok(s) => Some(s.to_string()),
        Err(_) => None,
    }
}

/// Decodes `bytes` as UTF-8, replacing invalid sequences.
///
/// Trusted: `String::from_utf8_lossy`, documented to give valid UTF-8 back unchanged; what
/// it makes of invalid sequences is named, not stated.
#[verifier::external_body]
pub fn utf8_lossy(bytes: &[u8]) -> (t: String)
    ensures
        t@ == utf8_lossy_text(bytes@),
        valid_utf8(bytes@) ==> t@ == decode_utf8(bytes@),
{
    String::from_utf8_lossy(bytes).into_owned()
}

} // verus!
