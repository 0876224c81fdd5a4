//! The failures of a client.

use vstd::prelude::*;
use vstd::string::*;

use crate::text::{
    begins_with, concat_text, decimal, decimal_text, finishes_with, lemma_message, signed_decimal,
    signed_decimal_text,
};

verus! {

/// An error object that the server sent.
#[derive(Debug, Clone, PartialEq)]
#[non_exhaustive]
pub struct RpcError {
    /// Numeric error code.
    pub code: i64,
    /// Human-readable message.
    pub message: String,
    /// Structured data, where there is some.
    pub data: Option<serde_json::Value>,
}

impl RpcError {
    /// Build an error object.
    pub fn new(code: i64, message: String, data: Option<serde_json::Value>) -> (r: Self)
        ensures
            r.code == code,
            r.message == message,
            r.data == data,
    {
        RpcError { code, message, data }
    }
}

/// The ways in which a client call fails.
#[derive(Debug)]
#[non_exhaustive]
pub enum Error {
    /// The server URL is not usable.
    InvalidBaseUrl(String),
    /// A URL could not be parsed or joined.
    Url(String),
    /// Sending the request or receiving the response failed.
    Http(String),
    /// The server answered with a failure status and no error object.
    HttpStatus(u16),
    /// JSON could not be written or read.
    Json(String),
    /// The server answered with an error object.
    Rpc {
        /// Numeric error code.
        code: i64,
        /// Human-readable message.
        message: String,
        /// Structured data, where there is some.
        data: Option<serde_json::Value>,
    },
    /// The response is not a response to this request.
    InvalidRpcResponse(String),
}

/// A client failure, with its texts as sequences.
#[verifier::ext_equal]
pub enum ClientErrorView {
    InvalidBaseUrl(Seq<char>),
    Url(Seq<char>),
    Http(Seq<char>),
    HttpStatus(u16),
    Json(Seq<char>),
    Rpc { code: i64, message: Seq<char>, data: Option<serde_json::Value> },
    InvalidRpcResponse(Seq<char>),
}

impl View for Error {
    type V = ClientErrorView;

    open spec fn view(&self) -> ClientErrorView {
        match self {
            Error::InvalidBaseUrl(reason) => ClientErrorView::InvalidBaseUrl(reason@),
            Error::Url(reason) => ClientErrorView::Url(reason@),
            Error::Http(reason) => ClientErrorView::Http(reason@),
            Error::HttpStatus(status) => ClientErrorView::HttpStatus(*status),
            Error::Json(reason) => ClientErrorView::Json(reason@),
            Error::Rpc { code, message, data } => ClientErrorView::Rpc {
                code: *code,
                message: message@,
                data: *data,
            },
            Error::InvalidRpcResponse(reason) => ClientErrorView::InvalidRpcResponse(reason@),
        }
    }
}

/// How a client failure is shown.
pub open spec fn client_error_text(e: ClientErrorView) -> Seq<char> {
    match e {
        ClientErrorView::InvalidBaseUrl(reason) => "invalid base URL: "@ + reason,
        ClientErrorView::Url(reason) => "url error: "@ + reason,
        ClientErrorView::Http(reason) => "http error: "@ + reason,
        ClientErrorView::HttpStatus(status) => "http status "@ + decimal(status as nat),
        ClientErrorView::Json(reason) => "json error: "@ + reason,
        ClientErrorView::Rpc { code, message, data } => "json-rpc error "@ + signed_decimal(
            code as int,
        ) + (": "@ + message),
        ClientErrorView::InvalidRpcResponse(reason) => "invalid JSON-RPC response: "@ + reason,
    }
}

impl Error {
    /// How the failure is shown.
    pub fn text(&self) -> (r: String)
        ensures
            r@ == client_error_text(self@),
    {
        match self {
            Error::InvalidBaseUrl(reason) => concat_text("invalid base URL: ", reason.as_str()),
            Error::Url(reason) => concat_text("url error: ", reason.as_str()),
            Error::Http(reason) => concat_text("http error: ", reason.as_str()),
            Error::HttpStatus(status) => concat_text(
                "http status ",
                decimal_text(*status as u64).as_str(),
            ),
            Error::Json(reason) => concat_text("json error: ", reason.as_str()),
            Error::Rpc { code, message, data: _ } => {
                let head = concat_text("json-rpc error ", signed_decimal_text(*code).as_str());
                let tail = concat_text(": ", message.as_str());
                concat_text(head.as_str(), tail.as_str())
            },
            Error::InvalidRpcResponse(reason) => concat_text(
                "invalid JSON-RPC response: ",
                reason.as_str(),
            ),
        }
    }
}

impl From<RpcError> for Error {
    fn from(error: RpcError) -> (r: Error) {
        Error::Rpc { code: error.code, message: error.message, data: error.data }
    }
}

impl vstd::std_specs::convert::FromSpecImpl<RpcError> for Error {
    open spec fn obeys_from_spec() -> bool {
        true
    }

    open spec fn from_spec(error: RpcError) -> Error {
        Error::Rpc { code: error.code, message: error.message, data: error.data }
    }
}

/// A client failure is told by its kind, and then by its reason.
pub proof fn client_failures_are_told_by_kind(e: ClientErrorView)
    ensures
        e matches ClientErrorView::InvalidBaseUrl(reason) ==> begins_with(client_error_text(e), "invalid base URL: "@) && finishes_with(
            client_error_text(e),
            reason,
        ),
        e matches ClientErrorView::Url(reason) ==> begins_with(client_error_text(e), "url error: "@) && finishes_with(
            client_error_text(e),
            reason,
        ),
        e matches ClientErrorView::Http(reason) ==> begins_with(client_error_text(e), "http error: "@) && finishes_with(
            client_error_text(e),
            reason,
        ),
        e matches ClientErrorView::HttpStatus(status) ==> begins_with(client_error_text(e), "http status "@) && finishes_with(
            client_error_text(e),
            decimal(status as nat),
        ),
        e matches ClientErrorView::Json(reason) ==> begins_with(client_error_text(e), "json error: "@) && finishes_with(
            client_error_text(e),
            reason,
        ),
        e matches ClientErrorView::InvalidRpcResponse(reason) ==> begins_with(client_error_text(e), "invalid JSON-RPC response: "@) && finishes_with(
            client_error_text(e),
            reason,
        ),
{
    match e {
        ClientErrorView::InvalidBaseUrl(reason) => {
            lemma_message(client_error_text(e), "invalid base URL: "@, reason);
        },
        ClientErrorView::Url(reason) => {
            lemma_message(client_error_text(e), "url error: "@, reason);
        },
        ClientErrorView::Http(reason) => {
            lemma_message(client_error_text(e), "http error: "@, reason);
        },
        ClientErrorView::HttpStatus(status) => {
            lemma_message(client_error_text(e), "http status "@, decimal(status as nat));
        },
        ClientErrorView::Json(reason) => {
            lemma_message(client_error_text(e), "json error: "@, reason);
        },
        ClientErrorView::InvalidRpcResponse(reason) => {
            lemma_message(client_error_text(e), "invalid JSON-RPC response: "@, reason);
        },
        _ => {},
    }
}

} // verus!
