//! The JSON-RPC transport layer: framing of request bodies, generic
//! resolution of a decoded response envelope, and the unified error channel
//! that collapses transport failures, node-side errors and absent results
//! into one reportable outcome.

use vstd::prelude::*;

verus! {

/// The error object of a JSON-RPC response: a code and a message, carried
/// verbatim from the node.
#[derive(Debug)]
pub struct RpcError {
    pub code: i64,
    pub message: String,
}

/// The single error channel of the client.
///
/// - `Transport`: an HTTP-level or body-shape failure (connection trouble,
///   a body that is not JSON, or one not matching the expected envelope).
/// - `RpcProtocol`: a well-formed envelope carrying a non-null `error`
///   field; code and message are preserved.
/// - `RpcEmptyResponse`: an envelope with neither `result` nor `error`.
/// - `Encoding`: a gas result string that does not parse as a 256-bit
///   hexadecimal quantity; it carries the offending string.
#[derive(Debug)]
pub enum ClientError {
    Transport(String),
    RpcProtocol(RpcError),
    RpcEmptyResponse,
    Encoding(String),
}

/// A decoded JSON-RPC response envelope, generic over the result type.
#[derive(Debug)]
pub struct Envelope<T> {
    pub result: Option<T>,
    pub error: Option<RpcError>,
}

/// The resolution policy of the transport layer, applied to a decoded
/// envelope: a present `result` wins (even beside an `error`, which a
/// well-behaved node never sends), else a present `error` becomes an
/// `RpcProtocol` failure, else the response is reported empty.
pub fn resolve_envelope<T>(env: Envelope<T>) -> (r: Result<T, ClientError>)
    ensures
        env.result matches Some(v) ==> r matches Ok(rv) && rv == v,
        env.result is None ==> (match env.error {
            Some(e) => r matches Err(err) && err == ClientError::RpcProtocol(e),
            None => r matches Err(err) && err matches ClientError::RpcEmptyResponse,
        }),
{
    match env.result {
        Some(v) => Ok(v),
        None => match env.error {
            Some(e) => Err(ClientError::RpcProtocol(e)),
            None => Err(ClientError::RpcEmptyResponse),
        },
    }
}

/// The exact JSON-RPC 2.0 request body: version tag `"2.0"`, the given
/// method, the given pre-serialized parameter list, and the fixed request
/// id `1`.
pub open spec fn request_body_spec(method: Seq<char>, params: Seq<char>) -> Seq<char> {
    "{\"jsonrpc\":\"2.0\",\"method\":\""@ + method + "\",\"params\":["@ + params + "],\"id\":1}"@
}

/// Frames a JSON-RPC 2.0 request body around a method name and an already
/// serialized, comma-separated parameter list.
pub fn rpc_request_body(method: &str, params: &str) -> (r: String)
    ensures
        r@ == request_body_spec(method@, params@),
{
    let mut r = String::new();
    r.append("{\"jsonrpc\":\"2.0\",\"method\":\"");
    r.append(method);
    r.append("\",\"params\":[");
    r.append(params);
    r.append("],\"id\":1}");
    proof {
        assert(r@ =~= request_body_spec(method@, params@));
    }
    r
}

#[verifier::external_type_specification]
#[verifier::external_body]
pub struct ExJsonValue(serde_json::Value);

#[verifier::external_type_specification]
#[verifier::external_body]
pub struct ExJsonError(serde_json::Error);

/// What serde_json::from_str returns for a body text: the parsed document,
/// or `None` where the text is not JSON.  Parsing depends on the text alone.
pub uninterp spec fn json_doc_of(body: Seq<char>) -> Option<serde_json::Value>;

/// What serde_json::Value::get returns: the value under a key, where the
/// document is an object holding that key.  It depends on the document and
/// the key alone.
pub uninterp spec fn json_field_of(v: serde_json::Value, key: Seq<char>) -> Option<
    serde_json::Value,
>;

/// What serde_json::Value::is_null returns: whether the value is JSON
/// `null`.  It depends on the value alone.
pub uninterp spec fn json_is_null_of(v: serde_json::Value) -> bool;

/// What serde_json::Value::as_i64 returns: the value of a JSON number that
/// is representable as a signed 64-bit integer.  It depends on the value
/// alone.
pub uninterp spec fn json_i64_of(v: serde_json::Value) -> Option<i64>;

/// What serde_json::Value::as_str returns: the text of a JSON string value.
/// It depends on the value alone.
pub uninterp spec fn json_string_of(v: serde_json::Value) -> Option<Seq<char>>;

/// Relies on serde_json::from_str: parses a JSON document, or reports that
/// the text is not one; the outcome is a function of the text.
#[verifier::external_body]
pub(crate) fn parse_json(body: &str) -> (r: Result<serde_json::Value, serde_json::Error>)
    ensures
        match r {
            Ok(v) => json_doc_of(body@) == Some(v),
            Err(_) => json_doc_of(body@) is None,
        },
{
    serde_json::from_str(body)
}

/// Relies on serde_json::Value::get: the value under a key of a JSON
/// object, where the value is an object holding that key.
#[verifier::external_body]
pub(crate) fn json_get<'a>(v: &'a serde_json::Value, key: &str) -> (r: Option<
    &'a serde_json::Value,
>)
    ensures
        match r {
            Some(x) => json_field_of(*v, key@) == Some(*x),
            None => json_field_of(*v, key@) is None,
        },
{
    v.get(key)
}

/// Relies on serde_json::Value::is_null: whether the value is JSON `null`.
#[verifier::external_body]
pub(crate) fn json_is_null(v: &serde_json::Value) -> (r: bool)
    ensures
        r == json_is_null_of(*v),
{
    v.is_null()
}

/// Relies on serde_json::Value::as_i64: the value of a JSON number that is
/// representable as a signed 64-bit integer.
#[verifier::external_body]
pub(crate) fn json_as_i64(v: &serde_json::Value) -> (r: Option<i64>)
    ensures
        r == json_i64_of(*v),
{
    v.as_i64()
}

/// Relies on serde_json::Value::as_str: the text of a JSON string value
/// (plus std's to_owned, which keeps the characters).
#[verifier::external_body]
pub(crate) fn json_as_string(v: &serde_json::Value) -> (r: Option<String>)
    ensures
        match r {
            Some(s) => json_string_of(*v) == Some(s@),
            None => json_string_of(*v) is None,
        },
{
    v.as_str().map(|s| s.to_owned())
}

/// Relies on serde_json::Error's Display implementation for a readable
/// description of a parse failure.
#[verifier::external_body]
pub(crate) fn json_error_message(e: &serde_json::Error) -> String {
    e.to_string()
}

/// Relies on String's FromIterator implementation: collecting characters
/// concatenates exactly those characters.
#[verifier::external_body]
pub(crate) fn string_from_chars(v: Vec<char>) -> (r: String)
    ensures
        r@ == v@,
{
    v.into_iter().collect()
}

/// The `result` field of a parsed document: present only when the key
/// exists and its value is not `null`.
pub open spec fn envelope_result_of(doc: serde_json::Value) -> Option<serde_json::Value> {
    match json_field_of(doc, "result"@) {
        Some(rv) => if json_is_null_of(rv) {
            None
        } else {
            Some(rv)
        },
        None => None,
    }
}

/// Whether an error object carries an integer `code` and a string
/// `message`, as the envelope shape demands.
pub open spec fn well_formed_error_object(ev: serde_json::Value) -> bool {
    &&& (match json_field_of(ev, "code"@) {
        Some(cv) => json_i64_of(cv) is Some,
        None => false,
    })
    &&& (match json_field_of(ev, "message"@) {
        Some(mv) => json_string_of(mv) is Some,
        None => false,
    })
}

/// The `code` of a well-formed error object.
pub open spec fn error_object_code(ev: serde_json::Value) -> i64 {
    match json_field_of(ev, "code"@) {
        Some(cv) => match json_i64_of(cv) {
            Some(c) => c,
            None => 0,
        },
        None => 0,
    }
}

/// The `message` of a well-formed error object.
pub open spec fn error_object_message(ev: serde_json::Value) -> Seq<char> {
    match json_field_of(ev, "message"@) {
        Some(mv) => match json_string_of(mv) {
            Some(m) => m,
            None => Seq::empty(),
        },
        None => Seq::empty(),
    }
}

/// Whether the document carries an `error` field that is present and not
/// `null`.
pub open spec fn envelope_has_error(doc: serde_json::Value) -> bool {
    match json_field_of(doc, "error"@) {
        Some(ev) => !json_is_null_of(ev),
        None => false,
    }
}

/// Whether the document's non-null `error` field fails the envelope shape
/// (no integer `code` or no string `message`).
pub open spec fn envelope_error_malformed(doc: serde_json::Value) -> bool {
    match json_field_of(doc, "error"@) {
        Some(ev) => !json_is_null_of(ev) && !well_formed_error_object(ev),
        None => false,
    }
}

/// The `code` carried by the document's error field.
pub open spec fn envelope_error_code(doc: serde_json::Value) -> i64 {
    match json_field_of(doc, "error"@) {
        Some(ev) => error_object_code(ev),
        None => 0,
    }
}

/// The `message` carried by the document's error field.
pub open spec fn envelope_error_message(doc: serde_json::Value) -> Seq<char> {
    match json_field_of(doc, "error"@) {
        Some(ev) => error_object_message(ev),
        None => Seq::empty(),
    }
}

/// Reads the response envelope fields out of a parsed JSON document:
/// `result` and `error` each count as present only when the key exists and
/// its value is not `null`; a non-null `error` must carry an integer `code`
/// and a string `message`, else the body does not match the expected
/// envelope shape and the failure is transport-level.
pub(crate) fn extract_envelope<'a>(v: &'a serde_json::Value) -> (r: Result<
    Envelope<&'a serde_json::Value>,
    ClientError,
>)
    ensures
        match r {
            Ok(env) => {
                &&& (match envelope_result_of(*v) {
                    Some(rv) => env.result matches Some(x) && *x == rv,
                    None => env.result is None,
                })
                &&& !envelope_error_malformed(*v)
                &&& (if envelope_has_error(*v) {
                    env.error matches Some(e) && e.code == envelope_error_code(*v)
                        && e.message@ == envelope_error_message(*v)
                } else {
                    env.error is None
                })
            },
            Err(e) => e matches ClientError::Transport(_) && envelope_error_malformed(*v),
        },
{
    let result = match json_get(v, "result") {
        None => None,
        Some(rv) => if json_is_null(rv) {
            None
        } else {
            Some(rv)
        },
    };
    let error = match json_get(v, "error") {
        None => None,
        Some(ev) => {
            if json_is_null(ev) {
                None
            } else {
                let code = match json_get(ev, "code") {
                    Some(cv) => match json_as_i64(cv) {
                        Some(c) => c,
                        None => {
                            return Err(ClientError::Transport(String::from_str(
                                "malformed error object in RPC response",
                            )));
                        },
                    },
                    None => {
                        return Err(ClientError::Transport(String::from_str(
                            "malformed error object in RPC response",
                        )));
                    },
                };
                let message = match json_get(ev, "message") {
                    Some(mv) => match json_as_string(mv) {
                        Some(m) => m,
                        None => {
                            return Err(ClientError::Transport(String::from_str(
                                "malformed error object in RPC response",
                            )));
                        },
                    },
                    None => {
                        return Err(ClientError::Transport(String::from_str(
                            "malformed error object in RPC response",
                        )));
                    },
                };
                Some(RpcError { code, message })
            }
        },
    };
    Ok(Envelope { result, error })
}

} // verus!
