//! The failures of the transport and the error objects that stand for them.

use vstd::prelude::*;
use vstd::string::*;

use crate::error::{error_text, Error, ErrorView};
use crate::text::{begins_with, concat_text, finishes_with, lemma_message};
use crate::transport::jsonrpc::{
    JsonRpcError, RpcErrorView, DENIED, INTERNAL_ERROR, INVALID_PARAMS, NOT_FOUND, NOT_IMPLEMENTED,
    PARSE_ERROR, UNAUTHORIZED,
};

verus! {

/// The ways in which serving a request fails.
#[derive(Debug)]
#[non_exhaustive]
pub enum TransportError {
    /// The runtime refused or failed.
    Runtime(Error),
    /// The request was not valid JSON or not a request object.
    Parse(String),
    /// A parameter could not be decoded.
    InvalidParams(String),
    /// The session is unknown or the presented token is not its token. The two
    /// are not told apart.
    Unauthorized,
    /// Something unexpected happened.
    Internal(String),
}

/// A transport failure, with its texts as sequences.
#[verifier::ext_equal]
pub enum TransportErrorView {
    Runtime(ErrorView),
    Parse(Seq<char>),
    InvalidParams(Seq<char>),
    Unauthorized,
    Internal(Seq<char>),
}

impl View for TransportError {
    type V = TransportErrorView;

    open spec fn view(&self) -> TransportErrorView {
        match self {
            TransportError::Runtime(e) => TransportErrorView::Runtime(e@),
            TransportError::Parse(reason) => TransportErrorView::Parse(reason@),
            TransportError::InvalidParams(reason) => TransportErrorView::InvalidParams(reason@),
            TransportError::Unauthorized => TransportErrorView::Unauthorized,
            TransportError::Internal(reason) => TransportErrorView::Internal(reason@),
        }
    }
}

/// How a transport failure is shown.
pub open spec fn transport_text(e: TransportErrorView) -> Seq<char> {
    match e {
        TransportErrorView::Runtime(source) => error_text(source),
        TransportErrorView::Parse(reason) => "parse error: "@ + reason,
        TransportErrorView::InvalidParams(reason) => "invalid params: "@ + reason,
        TransportErrorView::Unauthorized => "unauthorized"@,
        TransportErrorView::Internal(reason) => "internal error: "@ + reason,
    }
}

/// The error code of a runtime failure.
pub open spec fn runtime_code(e: ErrorView) -> i64 {
    match e {
        ErrorView::SessionNotFound(_) => NOT_FOUND,
        ErrorView::JobNotFound(_) => NOT_FOUND,
        ErrorView::CapabilityNotFound { .. } => NOT_FOUND,
        ErrorView::CapabilityDenied { .. } => DENIED,
        ErrorView::NotImplemented(_) => NOT_IMPLEMENTED,
        ErrorView::InvalidWorkspace { .. } => INVALID_PARAMS,
        ErrorView::CapabilityParse { .. } => INVALID_PARAMS,
        ErrorView::WorkspaceViolation { .. } => INVALID_PARAMS,
        _ => INTERNAL_ERROR,
    }
}

/// The error code of a transport failure.
pub open spec fn transport_code(e: TransportErrorView) -> i64 {
    match e {
        TransportErrorView::Runtime(source) => runtime_code(source),
        TransportErrorView::Parse(_) => PARSE_ERROR,
        TransportErrorView::InvalidParams(_) => INVALID_PARAMS,
        TransportErrorView::Unauthorized => UNAUTHORIZED,
        TransportErrorView::Internal(_) => INTERNAL_ERROR,
    }
}

/// The error object of a transport failure: its code and how it is shown.
pub open spec fn error_object(e: TransportErrorView) -> RpcErrorView {
    RpcErrorView { code: transport_code(e), message: transport_text(e), data: None }
}

impl TransportError {
    /// How the failure is shown.
    pub fn text(&self) -> (r: String)
        ensures
            r@ == transport_text(self@),
    {
        match self {
            TransportError::Runtime(e) => e.text(),
            TransportError::Parse(reason) => concat_text("parse error: ", reason.as_str()),
            TransportError::InvalidParams(reason) => concat_text(
                "invalid params: ",
                reason.as_str(),
            ),
            TransportError::Unauthorized => "unauthorized".to_owned(),
            TransportError::Internal(reason) => concat_text("internal error: ", reason.as_str()),
        }
    }

    /// The error object that is sent to the client.
    pub fn to_jsonrpc_error(&self) -> (r: JsonRpcError)
        ensures
            r@ == error_object(self@),
    {
        let code: i64 = match self {
            TransportError::Parse(_) => PARSE_ERROR,
            TransportError::InvalidParams(_) => INVALID_PARAMS,
            TransportError::Unauthorized => UNAUTHORIZED,
            TransportError::Internal(_) => INTERNAL_ERROR,
            TransportError::Runtime(e) => match e {
                Error::SessionNotFound(_) => NOT_FOUND,
                Error::JobNotFound(_) => NOT_FOUND,
                Error::CapabilityNotFound { .. } => NOT_FOUND,
                Error::CapabilityDenied { .. } => DENIED,
                Error::NotImplemented(_) => NOT_IMPLEMENTED,
                Error::InvalidWorkspace { .. } => INVALID_PARAMS,
                Error::CapabilityParse { .. } => INVALID_PARAMS,
                Error::WorkspaceViolation { .. } => INVALID_PARAMS,
                _ => INTERNAL_ERROR,
            },
        };
        JsonRpcError { code, message: self.text(), data: None }
    }
}

/// Every failure is told by the code of its kind: what was not found, what was
/// denied, what is not implemented, what was asked for wrongly, who may not ask,
/// what is no JSON, and what went wrong inside.
pub proof fn failures_have_their_code(e: TransportErrorView)
    ensures
        error_object(e).code == -32001 <==> (e matches TransportErrorView::Runtime(source) && (
        source is SessionNotFound || source is JobNotFound || source is CapabilityNotFound)),
        error_object(e).code == -32002 <==> (e matches TransportErrorView::Runtime(source)
            && source is CapabilityDenied),
        error_object(e).code == -32003 <==> (e matches TransportErrorView::Runtime(source)
            && source is NotImplemented),
        error_object(e).code == -32004 <==> e is Unauthorized,
        error_object(e).code == -32700 <==> e is Parse,
        error_object(e).code == -32602 <==> e is InvalidParams || (e matches
            TransportErrorView::Runtime(source) && (source is InvalidWorkspace
            || source is CapabilityParse || source is WorkspaceViolation)),
        error_object(e).code == -32603 || error_object(e).code == -32001 || error_object(e).code
            == -32002 || error_object(e).code == -32003 || error_object(e).code == -32004
            || error_object(e).code == -32700 || error_object(e).code == -32602,
{
}

/// A refusal for want of authority is the same for every session and token, so it
/// does not tell whether a session exists. A runtime failure is shown as it is.
pub proof fn refusals_tell_no_secret(source: ErrorView)
    ensures
        error_object(TransportErrorView::Unauthorized).message == "unauthorized"@,
        error_object(TransportErrorView::Unauthorized).data is None,
        error_object(TransportErrorView::Runtime(source)).message == error_text(source),
        error_object(TransportErrorView::Runtime(source)).data is None,
{
}

/// A transport failure is told by its kind, and then by its reason.
pub proof fn transport_failures_are_told_by_kind(e: TransportErrorView)
    ensures
        e matches TransportErrorView::Parse(reason) ==> begins_with(transport_text(e), "parse error: "@) && finishes_with(
            transport_text(e),
            reason,
        ),
        e matches TransportErrorView::InvalidParams(reason) ==> begins_with(transport_text(e), "invalid params: "@) && finishes_with(
            transport_text(e),
            reason,
        ),
        e matches TransportErrorView::Internal(reason) ==> begins_with(transport_text(e), "internal error: "@) && finishes_with(
            transport_text(e),
            reason,
        ),
{
    match e {
        TransportErrorView::Parse(reason) => {
            lemma_message(transport_text(e), "parse error: "@, reason);
        },
        TransportErrorView::InvalidParams(reason) => {
            lemma_message(transport_text(e), "invalid params: "@, reason);
        },
        TransportErrorView::Internal(reason) => {
            lemma_message(transport_text(e), "internal error: "@, reason);
        },
        _ => {},
    }
}

} // verus!
