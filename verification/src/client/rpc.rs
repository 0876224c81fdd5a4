//! Judging JSON-RPC replies.

use vstd::prelude::*;
use vstd::string::*;

use crate::client::error::{ClientErrorView, Error, RpcError};
use crate::json::{count_value, json_count, json_shown, show_value};
use crate::text::{concat_text, same_text};

verus! {

/// The id of every request: a client has one call under way at a time.
pub const REQUEST_ID: u64 = 1;

/// A decoded reply.
#[derive(Debug)]
pub struct RpcResponse<T> {
    /// The protocol version.
    pub jsonrpc: String,
    /// The id of the request that is answered.
    pub id: serde_json::Value,
    /// The result, where there is one.
    pub result: Option<T>,
    /// The error object, where there is one.
    pub error: Option<RpcError>,
}

/// What is wrong with a reply, where something is: the version, the id, or that
/// it holds both or neither of result and error.
pub open spec fn reply_fault<T>(response: RpcResponse<T>) -> Option<Seq<char>> {
    if response.jsonrpc@ != "2.0"@ {
        Some("unexpected jsonrpc version "@ + response.jsonrpc@)
    } else if json_count(response.id) != Some(REQUEST_ID) {
        Some("unexpected response id "@ + json_shown(response.id))
    } else if response.result is Some && response.error is Some {
        Some("response contained both result and error"@)
    } else if response.result is None && response.error is None {
        Some("response contained neither result nor error"@)
    } else {
        None
    }
}

/// Whether `r` is what a reply comes to.
pub open spec fn reply_judged<T>(response: RpcResponse<T>, r: Result<T, Error>) -> bool {
    match reply_fault(response) {
        Some(fault) => r matches Err(e) && e@ == ClientErrorView::InvalidRpcResponse(fault),
        None => match response.error {
            None => r == Ok::<T, Error>(response.result->0),
            Some(error) => r matches Err(e) && e@ == (ClientErrorView::Rpc {
                code: error.code,
                message: error.message@,
                data: error.data,
            }),
        },
    }
}

/// Judge a reply: its result, or the error object that it holds, or what is
/// wrong with it.
pub fn decode_rpc_response<T>(response: RpcResponse<T>) -> (r: Result<T, Error>)
    ensures
        reply_judged(response, r),
{
    if !same_text(response.jsonrpc.as_str(), "2.0") {
        return Err(
            Error::InvalidRpcResponse(
                concat_text("unexpected jsonrpc version ", response.jsonrpc.as_str()),
            ),
        );
    }
    let expected = match count_value(&response.id) {
        Some(n) => n == REQUEST_ID,
        None => false,
    };
    if !expected {
        let shown = show_value(&response.id);
        return Err(
            Error::InvalidRpcResponse(concat_text("unexpected response id ", shown.as_str())),
        );
    }
    match (response.result, response.error) {
        (Some(result), None) => Ok(result),
        (None, Some(error)) => Err(Error::from(error)),
        (Some(_), Some(_)) => Err(
            Error::InvalidRpcResponse("response contained both result and error".to_owned()),
        ),
        (None, None) => Err(
            Error::InvalidRpcResponse("response contained neither result nor error".to_owned()),
        ),
    }
}

/// The failure of an attach request that the server refused with a status,
/// given the error object that its body held, where it held one.
pub fn attach_refusal(status: u16, error: Option<RpcError>) -> (r: Error)
    ensures
        match error {
            Some(object) => r@ == (ClientErrorView::Rpc {
                code: object.code,
                message: object.message@,
                data: object.data,
            }),
            None => r@ == ClientErrorView::HttpStatus(status),
        },
{
    match error {
        Some(object) => Error::from(object),
        None => Error::HttpStatus(status),
    }
}

/// A reply gives its result exactly where it is of the right version, answers the
/// request that was sent, and holds a result and no error; an error that it holds
/// alone comes back with its own code, message and data.
pub proof fn replies_give_what_they_hold<T>(response: RpcResponse<T>, r: Result<T, Error>)
    requires
        reply_judged(response, r),
    ensures
        ({
            let fitting = response.jsonrpc@ == "2.0"@ && json_count(response.id) == Some(1u64);
            &&& r is Ok <==> fitting && response.result is Some && response.error is None
            &&& r matches Ok(value) ==> response.result == Some(value)
            &&& fitting && response.result is None && response.error is Some ==> (r matches Err(e)
                && e@ == (ClientErrorView::Rpc {
                code: response.error->0.code,
                message: response.error->0.message@,
                data: response.error->0.data,
            }))
            &&& r matches Err(e) ==> (e@ is Rpc <==> fitting && response.result is None
                && response.error is Some)
        }),
{
}

} // verus!
