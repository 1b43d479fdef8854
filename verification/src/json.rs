use vstd::prelude::*;

verus! {

/// The fields of the JSON object that `s` denotes — field name and the
/// canonical compact text of the field's value, per field — or `None` when
/// `s` does not denote a JSON object.
pub uninterp spec fn json_fields_of(s: Seq<char>) -> Option<Seq<(Seq<char>, Seq<char>)>>;

/// The items of the JSON array that `s` denotes, as canonical compact
/// texts, or `None` when `s` does not denote a JSON array.
pub uninterp spec fn json_items_of(s: Seq<char>) -> Option<Seq<Seq<char>>>;

/// The string that the JSON text `s` denotes, or `None` when `s` does not
/// denote a JSON string.
pub uninterp spec fn json_string_of(s: Seq<char>) -> Option<Seq<char>>;

/// Relies on serde_json::from_str::<serde_json::Value> and on the Display
/// form of serde_json::Value, which prints compact JSON: hands back each
/// field of the top-level JSON object as its name and the canonical text of
/// its value, or `None` when `s` is not a JSON object. serde_json parses
/// and prints deterministically (its maps iterate in a fixed order for a
/// given document), so the result is a function of `s` alone.
#[verifier::external_body]
pub(crate) fn json_object_fields(s: &str) -> (r: Option<Vec<(String, String)>>)
    ensures
        r.deep_view() == json_fields_of(s@),
{
    match serde_json::from_str::<serde_json::Value>(s) {
        Ok(serde_json::Value::Object(map)) => Some(
            map.into_iter().map(|(k, v)| (k, v.to_string())).collect(),
        ),
        _ => None,
    }
}

/// Relies on serde_json::from_str::<serde_json::Value> and on the Display
/// form of serde_json::Value: hands back each item of the top-level JSON
/// array as its canonical text, or `None` when `s` is not a JSON array; a
/// function of `s` alone, as above.
#[verifier::external_body]
pub(crate) fn json_array_items(s: &str) -> (r: Option<Vec<String>>)
    ensures
        r.deep_view() == json_items_of(s@),
{
    match serde_json::from_str::<serde_json::Value>(s) {
        Ok(serde_json::Value::Array(items)) => Some(
            items.into_iter().map(|v| v.to_string()).collect(),
        ),
        _ => None,
    }
}

/// Relies on serde_json::from_str::<String>: decodes the JSON string that
/// `s` denotes, or `None` when `s` is not a JSON string; deterministic, so
/// a function of `s` alone.
#[verifier::external_body]
pub(crate) fn json_string_value(s: &str) -> (r: Option<String>)
    ensures
        r.deep_view() == json_string_of(s@),
{
    serde_json::from_str::<String>(s).ok()
}


/// The text that `bytes` encode as UTF-8, or `None` when they are not valid
/// UTF-8.
pub uninterp spec fn utf8_of(bytes: Seq<u8>) -> Option<Seq<char>>;

/// Relies on String::from_utf8: decodes the bytes as UTF-8 text;
/// deterministic, so a function of the bytes alone.
#[verifier::external_body]
pub(crate) fn utf8_string(bytes: Vec<u8>) -> (r: Option<String>)
    ensures
        r.deep_view() == utf8_of(bytes@),
{
    String::from_utf8(bytes).ok()
}

} // verus!
