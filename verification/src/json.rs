use vstd::prelude::*;

verus! {

/// The serialized JSON object `{"text": t}`, with `t` JSON-escaped, exactly
/// as the JSON library prints it. The result depends on `t` alone.
pub uninterp spec fn json_text_object(t: Seq<char>) -> Seq<char>;

/// Relies on `serde_json::to_string`: serializing an object value built by
/// `serde_json::Map::insert` of the single field `text` yields the JSON text
/// named by `json_text_object`; serializing such a value never fails.
#[verifier::external_body]
pub(crate) fn encode_text_object(text: &str) -> (r: String)
    ensures
        r@ == json_text_object(text@),
{
    let mut fields = serde_json::Map::new();
    fields.insert("text".to_string(), serde_json::Value::String(text.to_string()));
    match serde_json::to_string(&serde_json::Value::Object(fields)) {
        Ok(s) => s,
        Err(_) => String::new(),
    }
}

} // verus!
