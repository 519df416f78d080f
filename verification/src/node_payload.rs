//! The error that the Node binding raises: its reason is a JSON object with the error's code,
//! category and message, keys in sorted order, as `serde_json` writes a map.
use crate::errors::{classify_err_message, node_message_class};
use vstd::prelude::*;

verus! {

/// The JSON text that `serde_json` writes for a string: quoted, with `"`, `\` and the control
/// characters escaped.
pub uninterp spec fn json_str(s: Seq<char>) -> Seq<char>;

/// Calls `serde_json::to_string` on a string, its error dropped. Serializing a `str` into the
/// vector that `to_string` writes to has no way to fail, so the result is always present; its
/// text is named `json_str` here and not spelled out.
#[verifier::external_body]
fn json_string(s: &str) -> (r: Option<String>)
    ensures
        r is Some,
        r matches Some(t) ==> t@ == json_str(s@),
{
    serde_json::to_string(s).ok()
}

/// The JSON text of a string.
fn json_text(s: &str) -> (r: String)
    ensures
        r@ == json_str(s@),
{
    match json_string(s) {
        Some(t) => t,
        None => String::new(),
    }
}

/// The payload `{"category":..,"code":..,"message":..}` of an error.
pub open spec fn payload_text(code: Seq<char>, category: Seq<char>, message: Seq<char>) -> Seq<char> {
    "{\"category\":"@ + json_str(category) + ",\"code\":"@ + json_str(code) + ",\"message\":"@ + json_str(message)
        + "}"@
}

/// The JSON payload of an error with the given code, category and message.
pub fn error_payload(code: &str, category: &str, message: &str) -> (r: String)
    ensures
        r@ == payload_text(code@, category@, message@),
{
    let mut out = String::from_str("{\"category\":");
    let c = json_text(category);
    out.append(c.as_str());
    out.append(",\"code\":");
    let d = json_text(code);
    out.append(d.as_str());
    out.append(",\"message\":");
    let m = json_text(message);
    out.append(m.as_str());
    out.append("}");
    proof {
        assert(out@ =~= payload_text(code@, category@, message@));
    }
    out
}

/// An error raised to JavaScript: its reason is the JSON payload.
pub struct NapiError {
    pub reason: String,
}

/// The error that the Node binding raises for a message: the message classified by
/// `classify_err_message`, in a JSON payload.
pub fn napi_err(message: &str) -> (r: NapiError)
    ensures
        r.reason@ == payload_text(node_message_class(message@).0, node_message_class(message@).1, message@),
{
    let (code, category) = classify_err_message(message);
    NapiError { reason: error_payload(code, category, message) }
}

} // verus!
