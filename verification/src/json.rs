//! JSON text, as `serde_json` writes it, for the objects the tools answer with.
use vstd::prelude::*;

verus! {

/// The views of key/text pairs.
pub open spec fn text_fields_view(v: Seq<(String, String)>) -> Seq<(Seq<char>, Seq<char>)> {
    v.map_values(|p: (String, String)| (p.0@, p.1@))
}

/// The views of key/number pairs.
pub open spec fn number_fields_view(v: Seq<(String, u32)>) -> Seq<(Seq<char>, u32)> {
    v.map_values(|p: (String, u32)| (p.0@, p.1))
}

/// The views of rows of key/text pairs.
pub open spec fn rows_view(v: Seq<Vec<(String, String)>>) -> Seq<Seq<(Seq<char>, Seq<char>)>> {
    v.map_values(|row: Vec<(String, String)>| text_fields_view(row@))
}

/// What `serde_json::to_string` gives for the object with the text fields
/// `texts` and then the number fields `numbers`.
pub uninterp spec fn compact_json_object(
    texts: Seq<(Seq<char>, Seq<char>)>,
    numbers: Seq<(Seq<char>, u32)>,
) -> Option<Seq<char>>;

/// What `serde_json::to_string_pretty` gives for the array of objects, one
/// per row, each with the text fields of its row.
pub uninterp spec fn pretty_json_array(rows: Seq<Seq<(Seq<char>, Seq<char>)>>) -> Option<Seq<char>>;

/// Trusted: puts the fields into a `serde_json::Map` of `serde_json::Value`s
/// (texts as JSON strings, numbers as JSON numbers), and writes the object
/// with `serde_json::to_string`; `None` when that reports an error.  The
/// contract only names the text it writes.
#[verifier::external_body]
pub(crate) fn json_object_text(texts: &Vec<(String, String)>, numbers: &Vec<(String, u32)>) -> (r:
    Option<String>)
    ensures
        match r {
            Some(s) => compact_json_object(text_fields_view(texts@), number_fields_view(numbers@))
                == Some(s@),
            None => compact_json_object(text_fields_view(texts@), number_fields_view(numbers@))
                is None,
        },
{
    let object: serde_json::Map<String, serde_json::Value> = texts
        .iter()
        .map(|(k, v)| (k.clone(), serde_json::Value::from(v.as_str())))
        .chain(numbers.iter().map(|(k, n)| (k.clone(), serde_json::Value::from(*n))))
        .collect();
    serde_json::to_string(&serde_json::Value::Object(object)).ok()
}

/// Trusted: turns each row into a `serde_json::Map` of JSON strings, the rows
/// into a JSON array, and writes it with `serde_json::to_string_pretty`;
/// `None` when that reports an error.  The contract only names the text it
/// writes.
#[verifier::external_body]
pub(crate) fn json_array_text(rows: &Vec<Vec<(String, String)>>) -> (r: Option<String>)
    ensures
        match r {
            Some(s) => pretty_json_array(rows_view(rows@)) == Some(s@),
            None => pretty_json_array(rows_view(rows@)) is None,
        },
{
    let array: Vec<serde_json::Value> = rows
        .iter()
        .map(|row| serde_json::Value::Object(
            row.iter().map(|(k, v)| (k.clone(), serde_json::Value::from(v.as_str()))).collect(),
        ))
        .collect();
    serde_json::to_string_pretty(&array).ok()
}

} // verus!
