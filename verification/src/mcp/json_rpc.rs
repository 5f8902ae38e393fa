use vstd::prelude::*;

use crate::json::{JsonData, JsonValue};

verus! {

/// A JSON-RPC request, or a notification when it carries no id.
#[derive(Debug, Clone, PartialEq)]
pub struct JsonRpcRequest {
    pub jsonrpc: String,
    pub id: Option<JsonValue>,
    pub method: String,
    pub params: Option<JsonValue>,
}

/// A JSON-RPC response: a result or an error, never both.
#[derive(Debug, Clone, PartialEq)]
pub struct JsonRpcResponse {
    pub jsonrpc: String,
    pub id: Option<JsonValue>,
    pub result: Option<JsonValue>,
    pub error: Option<JsonRpcError>,
}

/// The error that a JSON-RPC response reports.
#[derive(Debug, Clone, PartialEq)]
pub struct JsonRpcError {
    pub code: i64,
    pub message: String,
}

/// `r` is a JSON-RPC 2.0 response to `id` with a result whose model is `result`.
pub open spec fn is_success(r: JsonRpcResponse, id: Option<JsonValue>, result: JsonData) -> bool {
    &&& r.jsonrpc@ == "2.0"@
    &&& r.id == id
    &&& r.error is None
    &&& r.result matches Some(v) && v.data() == result
}

/// `r` is a JSON-RPC 2.0 response to `id` that reports the error `code` with
/// the given message.
pub open spec fn is_failure(r: JsonRpcResponse, id: Option<JsonValue>, code: int, message: Seq<char>) -> bool {
    &&& r.jsonrpc@ == "2.0"@
    &&& r.id == id
    &&& r.result is None
    &&& r.error matches Some(e) && e.code == code && e.message@ == message
}

impl JsonRpcResponse {
    /// A response to `id` that carries `result`.
    pub fn success(id: Option<JsonValue>, result: JsonValue) -> (r: Self)
        ensures
            r.jsonrpc@ == "2.0"@,
            r.id == id,
            r.result == Some(result),
            r.error is None,
    {
        JsonRpcResponse { jsonrpc: String::from_str("2.0"), id, result: Some(result), error: None }
    }

    /// A response to `id` that reports the error `code` with `message`.
    pub fn error(id: Option<JsonValue>, code: i64, message: String) -> (r: Self)
        ensures
            r.jsonrpc@ == "2.0"@,
            r.id == id,
            r.result is None,
            r.error == Some(JsonRpcError { code, message }),
    {
        JsonRpcResponse {
            jsonrpc: String::from_str("2.0"),
            id,
            result: None,
            error: Some(JsonRpcError { code, message }),
        }
    }
}

} // verus!
