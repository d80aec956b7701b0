//! Replies to HTTP requests, and the JSON encoding of their bodies.

use vstd::prelude::*;

use crate::keyed::{distinct_names, keyed};

verus! {

/// What a handler sends back: an HTTP status code and a body.
#[derive(Debug)]
pub struct ApiResponse {
    pub status: u16,
    pub body: String,
}

/// The JSON text of an object whose members are strings.
pub uninterp spec fn text_object_json(m: Map<Seq<char>, Seq<char>>) -> Seq<char>;

/// The JSON text of an object whose members are integers.
pub uninterp spec fn int_object_json(m: Map<Seq<char>, i64>) -> Seq<char>;

/// The view of a map from names to strings.
pub open spec fn text_view(m: Map<Seq<char>, String>) -> Map<Seq<char>, Seq<char>> {
    m.map_values(|v: String| v@)
}

/// Relies on serde_json::to_string on a `BTreeMap<&String, &String>`: it
/// fails only where its writer fails, and it writes into memory; the JSON
/// object text depends on the members alone since the map is walked in key
/// order.
#[verifier::external_body]
pub(crate) fn encode_text_object(entries: &Vec<(String, String)>) -> (r: Result<String, serde_json::Error>)
    requires
        distinct_names(entries@),
    ensures
        r is Ok,
        r matches Ok(s) ==> s@ == text_object_json(text_view(keyed(entries@))),
{
    let object: std::collections::BTreeMap<&String, &String> = entries.iter().map(|e| (&e.0, &e.1)).collect();
    serde_json::to_string(&object)
}

/// Relies on serde_json::to_string on a `BTreeMap<&String, i64>`: it fails
/// only where its writer fails, and it writes into memory; the JSON object
/// text depends on the members alone since the map is walked in key order.
#[verifier::external_body]
pub(crate) fn encode_int_object(entries: &Vec<(String, i64)>) -> (r: Result<String, serde_json::Error>)
    requires
        distinct_names(entries@),
    ensures
        r is Ok,
        r matches Ok(s) ==> s@ == int_object_json(keyed(entries@)),
{
    let object: std::collections::BTreeMap<&String, i64> = entries.iter().map(|e| (&e.0, e.1)).collect();
    serde_json::to_string(&object)
}

/// Relies on the `Debug` text of serde_json::Error, as a diagnostic.
#[verifier::external_body]
fn json_error_text(e: &serde_json::Error) -> String {
    format!("{:?}", e)
}

impl ApiResponse {
    /// The reply for an encoded body: the body under `success` where encoding
    /// worked, else a server error that carries the encoder's diagnostic.
    pub fn from_encoded(encoded: Result<String, serde_json::Error>, success: u16) -> (r: ApiResponse)
        ensures
            match encoded {
                Ok(b) => r.status == success && r.body@ == b@,
                Err(_) => r.status == 500,
            },
    {
        match encoded {
            Ok(body) => ApiResponse { status: success, body },
            Err(e) => ApiResponse { status: 500, body: json_error_text(&e) },
        }
    }
}

} // verus!
