//! The remote video-platform API: typed response shapes and the embedded
//! error convention.
//!
//! The platform reports failures inside successful response bodies: a body
//! may carry an error envelope (an object under the key `error`, with a code
//! and a message) even though the transport succeeded. The surrounding
//! application performs the HTTP request and the typed decode; this module
//! owns every decision about a body once it is in hand.

pub mod channels;
pub mod playlist_items;
pub mod videos;

use vstd::prelude::*;

use crate::errors::IngestError;

verus! {

#[verifier::external_type_specification]
#[verifier::external_body]
pub struct ExValue(serde_json::Value);

#[verifier::external_type_specification]
#[verifier::external_body]
pub struct ExJsonError(serde_json::Error);

/// Whether `serde_json` accepts the text as one well-formed JSON document.
/// The verdict depends on the text alone.
pub uninterp spec fn json_ok(s: Seq<char>) -> bool;

/// The document a JSON text parses to; meaningful where `json_ok` holds.
/// The document depends on the text alone.
pub uninterp spec fn json_value_of(s: Seq<char>) -> serde_json::Value;

/// Whether the document is a JSON object with a member under this key.
pub uninterp spec fn value_has_member(v: serde_json::Value, key: Seq<char>) -> bool;

/// The member of the document under this key; meaningful where
/// `value_has_member` holds.
pub uninterp spec fn value_member(v: serde_json::Value, key: Seq<char>) -> serde_json::Value;

/// The integer reading of a document: the value when it is a JSON integer
/// that fits an `i64`, nothing otherwise.
pub uninterp spec fn value_i64(v: serde_json::Value) -> Option<int>;

/// The text of a document that is a JSON string, nothing for any other kind.
pub uninterp spec fn value_string(v: serde_json::Value) -> Option<Seq<char>>;

/// Relies on `serde_json::from_str::<Value>`: it succeeds exactly on the
/// texts that form one well-formed JSON document, and both the verdict and
/// the document depend on the text alone.
#[verifier::external_body]
fn parse_json_value(body: &str) -> (r: Result<serde_json::Value, serde_json::Error>)
    ensures
        r is Ok <==> json_ok(body@),
        r matches Ok(v) ==> v == json_value_of(body@),
{
    serde_json::from_str::<serde_json::Value>(body)
}

/// Relies on `serde_json::Value::get` with a string key: it returns the
/// member exactly when the value is a JSON object holding that key, `None`
/// for non-objects and absent keys.
#[verifier::external_body]
fn json_get<'a>(v: &'a serde_json::Value, key: &str) -> (r: Option<&'a serde_json::Value>)
    ensures
        r is Some <==> value_has_member(*v, key@),
        r matches Some(m) ==> *m == value_member(*v, key@),
{
    v.get(key)
}

/// Relies on `serde_json::Value::as_i64`: the value of a JSON integer that
/// fits an `i64`, `None` otherwise.
#[verifier::external_body]
fn json_as_i64(v: &serde_json::Value) -> (r: Option<i64>)
    ensures
        r is Some <==> value_i64(*v) is Some,
        r matches Some(n) ==> value_i64(*v) == Some(n as int),
{
    v.as_i64()
}

/// Relies on `serde_json::Value::as_str`: the text of a JSON string, `None`
/// for any other kind of value.
#[verifier::external_body]
fn json_as_string(v: &serde_json::Value) -> (r: Option<String>)
    ensures
        r is Some <==> value_string(*v) is Some,
        r matches Some(s) ==> value_string(*v) == Some(s@),
{
    v.as_str().map(|s| s.to_owned())
}

/// What a response body turned out to be.
pub enum BodyClass {
    /// The body is not a JSON document at all.
    NotJson,
    /// The body carries the platform's error envelope.
    ApiError { code: Option<i64>, message: Option<String> },
    /// An ordinary body, to be decoded into the expected shape.
    Payload(serde_json::Value),
}

/// Classify a response body: not JSON at all; the error envelope, carrying
/// the envelope's code and message where they are present and readable; or a
/// payload holding the parsed document, for the typed decode.
pub fn classify_response_body(body: &str) -> (r: BodyClass)
    ensures
        r is NotJson <==> !json_ok(body@),
        r is ApiError <==> json_ok(body@) && value_has_member(json_value_of(body@), "error"@),
        r matches BodyClass::ApiError { code, message } ==> ({
            let env = value_member(json_value_of(body@), "error"@);
            &&& (code is Some <==> value_has_member(env, "code"@) && value_i64(
                value_member(env, "code"@),
            ) is Some)
            &&& (code matches Some(c) ==> value_i64(value_member(env, "code"@)) == Some(c as int))
            &&& (message is Some <==> value_has_member(env, "message"@) && value_string(
                value_member(env, "message"@),
            ) is Some)
            &&& (message matches Some(m) ==> value_string(value_member(env, "message"@)) == Some(
                m@,
            ))
        }),
        r matches BodyClass::Payload(v) ==> json_ok(body@) && !value_has_member(
            json_value_of(body@),
            "error"@,
        ) && v == json_value_of(body@),
{
    match parse_json_value(body) {
        Err(_) => BodyClass::NotJson,
        Ok(v) => {
            let has_error = match json_get(&v, "error") {
                Some(error_obj) => {
                    let code = match json_get(error_obj, "code") {
                        Some(c) => json_as_i64(c),
                        None => None,
                    };
                    let message = match json_get(error_obj, "message") {
                        Some(m) => json_as_string(m),
                        None => None,
                    };
                    Some((code, message))
                },
                None => None,
            };
            match has_error {
                Some((code, message)) => BodyClass::ApiError { code, message },
                None => BodyClass::Payload(v),
            }
        },
    }
}

/// The domain error for an error envelope: the code is carried as parsed,
/// a missing message becomes the empty message.
pub fn domain_error(code: Option<i64>, message: Option<String>) -> (r: IngestError)
    ensures
        r matches IngestError::Domain { code: c, message: m } && c == code && (match message {
            Some(s) => m == s,
            None => m@ =~= Seq::<char>::empty(),
        }),
{
    match message {
        Some(s) => IngestError::Domain { code, message: s },
        None => IngestError::Domain { code, message: String::new() },
    }
}

/// The outcome of the typed decode of a payload: a shape mismatch is an
/// "unexpected response" error, distinct from a genuine domain error.
pub fn decode_outcome<T>(decoded: Result<T, String>) -> (r: Result<T, IngestError>)
    ensures
        r is Ok <==> decoded is Ok,
        decoded matches Ok(v) ==> r matches Ok(w) && w == v,
        decoded matches Err(m) ==> r matches Err(e) && e matches IngestError::Schema(s) && s == m,
{
    match decoded {
        Ok(v) => Ok(v),
        Err(m) => Err(IngestError::Schema(m)),
    }
}

} // verus!
