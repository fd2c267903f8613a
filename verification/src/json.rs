//! Extraction of the `model` field from a JSON request body.

use vstd::prelude::*;

use crate::models::ModelExtractPayload;

verus! {

/// What parsing a request body yields: for a valid JSON document, the
/// optional `model` string field (absent when the document has none, or
/// when that field is not a string); for anything else, the parser's
/// error text. A function of the bytes alone.
pub uninterp spec fn json_model_field(bytes: Seq<u8>) -> Result<Option<Seq<char>>, Seq<char>>;

/// Relies on `serde_json::from_slice::<Value>` to parse the body and on
/// `Value::get` and `Value::as_str` to read its `model` field; the
/// outcome depends on the bytes alone and is named `json_model_field`.
#[verifier::external_body]
pub(crate) fn extract_model_field(bytes: &Vec<u8>) -> (r: Result<ModelExtractPayload, String>)
    ensures
        (r is Ok <==> json_model_field(bytes@) is Ok),
        (r matches Ok(p) ==> p.model.deep_view() == json_model_field(bytes@)->Ok_0),
        (r matches Err(e) ==> json_model_field(bytes@) matches Err(t) && e@ == t),
{
    match serde_json::from_slice::<serde_json::Value>(bytes) {
        Ok(v) => Ok(
            ModelExtractPayload {
                model: v.get("model").and_then(|m| m.as_str()).map(|s| s.to_string()),
            },
        ),
        Err(e) => Err(format!("{}", e)),
    }
}

} // verus!
