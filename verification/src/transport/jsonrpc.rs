//! JSON-RPC 2.0 envelopes: request, response and error.

use vstd::prelude::*;

verus! {

/// JSON-RPC 2.0: invalid JSON was received.
pub const PARSE_ERROR: i64 = -32700;

/// JSON-RPC 2.0: the JSON is not a valid request object.
pub const INVALID_REQUEST: i64 = -32600;

/// JSON-RPC 2.0: there is no such method.
pub const METHOD_NOT_FOUND: i64 = -32601;

/// JSON-RPC 2.0: the parameters are invalid.
pub const INVALID_PARAMS: i64 = -32602;

/// JSON-RPC 2.0: internal error.
pub const INTERNAL_ERROR: i64 = -32603;

/// Application error: a session, job or capability was not found.
pub const NOT_FOUND: i64 = -32001;

/// Application error: a grant is missing.
pub const DENIED: i64 = -32002;

/// Application error: the feature is not implemented.
pub const NOT_IMPLEMENTED: i64 = -32003;

/// Application error: unknown session or invalid capability token.
pub const UNAUTHORIZED: i64 = -32004;

/// An inbound request.
#[derive(Debug)]
pub struct JsonRpcRequest {
    /// The protocol version; `"2.0"` where the request has none.
    pub jsonrpc: String,
    /// The client's correlation id, where it gave one.
    pub id: Option<serde_json::Value>,
    /// The method to call.
    pub method: String,
    /// The parameters; null where the request has none.
    pub params: serde_json::Value,
}

/// An error object.
#[derive(Debug)]
pub struct JsonRpcError {
    /// Numeric error code.
    pub code: i64,
    /// Human-readable error message.
    pub message: String,
    /// Structured additional data, where there is some.
    pub data: Option<serde_json::Value>,
}

/// An error object, with its message as a sequence.
#[verifier::ext_equal]
pub struct RpcErrorView {
    pub code: i64,
    pub message: Seq<char>,
    pub data: Option<serde_json::Value>,
}

impl View for JsonRpcError {
    type V = RpcErrorView;

    open spec fn view(&self) -> RpcErrorView {
        RpcErrorView { code: self.code, message: self.message@, data: self.data }
    }
}

/// The body of a response: a result or an error, never both.
#[derive(Debug)]
pub enum JsonRpcBody {
    /// The call succeeded.
    Success {
        /// What it gave.
        result: serde_json::Value,
    },
    /// The call failed.
    Failure {
        /// How it failed.
        error: JsonRpcError,
    },
}

/// An outbound response.
#[derive(Debug)]
pub struct JsonRpcResponse {
    /// Always `"2.0"`.
    pub jsonrpc: &'static str,
    /// The id of the request, or null.
    pub id: serde_json::Value,
    /// The result or the error.
    pub body: JsonRpcBody,
}

impl JsonRpcResponse {
    /// Build a success response.
    pub fn success(id: serde_json::Value, result: serde_json::Value) -> (r: Self)
        ensures
            r.jsonrpc@ == "2.0"@,
            r.id == id,
            r.body == (JsonRpcBody::Success { result }),
    {
        JsonRpcResponse { jsonrpc: "2.0", id, body: JsonRpcBody::Success { result } }
    }

    /// Build an error response.
    pub fn error(id: serde_json::Value, error: JsonRpcError) -> (r: Self)
        ensures
            r.jsonrpc@ == "2.0"@,
            r.id == id,
            r.body == (JsonRpcBody::Failure { error }),
    {
        JsonRpcResponse { jsonrpc: "2.0", id, body: JsonRpcBody::Failure { error } }
    }
}

} // verus!
