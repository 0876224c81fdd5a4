//! Which method a request calls, and how its outcome is answered.

use vstd::prelude::*;
use vstd::string::*;

use crate::json::{json_null, null_value};
use crate::text::{concat_text, same_text};
use crate::transport::error::{error_object, TransportError};
use crate::transport::jsonrpc::{
    JsonRpcBody, JsonRpcError, JsonRpcResponse, RpcErrorView, INVALID_REQUEST, METHOD_NOT_FOUND,
    PARSE_ERROR,
};

verus! {

/// What serves a method.
#[derive(Debug, Clone, Copy, PartialEq, Eq, Structural)]
pub enum Route {
    /// `session.open`.
    SessionOpen,
    /// `session.close`.
    SessionClose,
    /// `session.audit`.
    SessionAudit,
    /// `axp.index`.
    Index,
    /// `axp.describe`.
    Describe,
    /// `job.start`.
    JobStart,
    /// `job.status`.
    JobStatus,
    /// `job.cancel`.
    JobCancel,
    /// `job.attach`, which is served as an event stream and not here.
    JobAttach,
    /// No method of that name.
    Unknown,
}

/// What serves a method.
pub open spec fn route_of(method: Seq<char>) -> Route {
    if method == "session.open"@ {
        Route::SessionOpen
    } else if method == "session.close"@ {
        Route::SessionClose
    } else if method == "session.audit"@ {
        Route::SessionAudit
    } else if method == "axp.index"@ {
        Route::Index
    } else if method == "axp.describe"@ {
        Route::Describe
    } else if method == "job.start"@ {
        Route::JobStart
    } else if method == "job.status"@ {
        Route::JobStatus
    } else if method == "job.cancel"@ {
        Route::JobCancel
    } else if method == "job.attach"@ {
        Route::JobAttach
    } else {
        Route::Unknown
    }
}

/// What serves a method.
pub fn route(method: &str) -> (r: Route)
    ensures
        r == route_of(method@),
{
    if same_text(method, "session.open") {
        Route::SessionOpen
    } else if same_text(method, "session.close") {
        Route::SessionClose
    } else if same_text(method, "session.audit") {
        Route::SessionAudit
    } else if same_text(method, "axp.index") {
        Route::Index
    } else if same_text(method, "axp.describe") {
        Route::Describe
    } else if same_text(method, "job.start") {
        Route::JobStart
    } else if same_text(method, "job.status") {
        Route::JobStatus
    } else if same_text(method, "job.cancel") {
        Route::JobCancel
    } else if same_text(method, "job.attach") {
        Route::JobAttach
    } else {
        Route::Unknown
    }
}

/// The error object for a method that is not served here, where it is not.
pub open spec fn unserved(method: Seq<char>) -> Option<RpcErrorView> {
    match route_of(method) {
        Route::Unknown => Some(
            RpcErrorView {
                code: METHOD_NOT_FOUND,
                message: "method not found: "@ + method,
                data: None,
            },
        ),
        Route::JobAttach => Some(
            RpcErrorView {
                code: INVALID_REQUEST,
                message: "job.attach is served over GET /job/attach"@,
                data: None,
            },
        ),
        _ => None,
    }
}

/// The error object for a method that is not served here, where it is not.
pub fn refuse_method(method: &str) -> (r: Option<JsonRpcError>)
    ensures
        match r {
            Some(error) => unserved(method@) == Some(error@),
            None => unserved(method@) is None,
        },
{
    match route(method) {
        Route::Unknown => Some(
            JsonRpcError {
                code: METHOD_NOT_FOUND,
                message: concat_text("method not found: ", method),
                data: None,
            },
        ),
        Route::JobAttach => Some(
            JsonRpcError {
                code: INVALID_REQUEST,
                message: "job.attach is served over GET /job/attach".to_owned(),
                data: None,
            },
        ),
        _ => None,
    }
}

/// Whether a response goes to the sender of a request: it has the request's id,
/// or null where that has none.
pub open spec fn echoes(id: Option<serde_json::Value>, response: JsonRpcResponse) -> bool {
    match id {
        Some(given) => response.id == given,
        None => json_null(response.id),
    }
}

fn response_id(id: Option<serde_json::Value>) -> (r: serde_json::Value)
    ensures
        match id {
            Some(given) => r == given,
            None => json_null(r),
        },
{
    match id {
        Some(given) => given,
        None => null_value(),
    }
}

/// Whether a response answers a request, given what its handler gave.
pub open spec fn answered(
    id: Option<serde_json::Value>,
    method: Seq<char>,
    outcome: Result<serde_json::Value, TransportError>,
    r: JsonRpcResponse,
) -> bool {
    &&& r.jsonrpc@ == "2.0"@
    &&& echoes(id, r)
    &&& match unserved(method) {
        Some(refusal) => r.body matches JsonRpcBody::Failure { error } && error@ == refusal,
        None => match outcome {
            Ok(value) => r.body == (JsonRpcBody::Success { result: value }),
            Err(e) => r.body matches JsonRpcBody::Failure { error } && error@ == error_object(e@),
        },
    }
}

/// Answer a request: by what its handler gave for a method that is served, and
/// by the refusal for one that is not.
pub fn dispatch(
    id: Option<serde_json::Value>,
    method: &str,
    outcome: Result<serde_json::Value, TransportError>,
) -> (r: JsonRpcResponse)
    ensures
        answered(id, method@, outcome, r),
{
    let echoed = response_id(id);
    match refuse_method(method) {
        Some(error) => JsonRpcResponse::error(echoed, error),
        None => match outcome {
            Ok(value) => JsonRpcResponse::success(echoed, value),
            Err(e) => JsonRpcResponse::error(echoed, e.to_jsonrpc_error()),
        },
    }
}

/// Answer a body that is not a request: the id is null.
pub fn answer_unparsed(reason: String) -> (r: JsonRpcResponse)
    ensures
        r.jsonrpc@ == "2.0"@,
        json_null(r.id),
        r.body matches JsonRpcBody::Failure { error } && error@ == (RpcErrorView {
            code: PARSE_ERROR,
            message: "parse error: "@ + reason@,
            data: None,
        }),
{
    JsonRpcResponse::error(null_value(), TransportError::Parse(reason).to_jsonrpc_error())
}

/// The method that a route serves.
pub open spec fn method_of(route: Route) -> Option<Seq<char>> {
    match route {
        Route::SessionOpen => Some("session.open"@),
        Route::SessionClose => Some("session.close"@),
        Route::SessionAudit => Some("session.audit"@),
        Route::Index => Some("axp.index"@),
        Route::Describe => Some("axp.describe"@),
        Route::JobStart => Some("job.start"@),
        Route::JobStatus => Some("job.status"@),
        Route::JobCancel => Some("job.cancel"@),
        Route::JobAttach => Some("job.attach"@),
        Route::Unknown => None,
    }
}

/// Every method leads to the one route that serves it, and every route but the one
/// for unknown names is reached by its method.
pub proof fn methods_and_routes_match(method: Seq<char>, route: Route)
    ensures
        route_of(method) != Route::Unknown ==> method_of(route_of(method)) == Some(method),
        method_of(route) matches Some(name) ==> route_of(name) == route,
{
    reveal_strlit("session.open");
    reveal_strlit("session.close");
    reveal_strlit("session.audit");
    reveal_strlit("axp.index");
    reveal_strlit("axp.describe");
    reveal_strlit("job.start");
    reveal_strlit("job.status");
    reveal_strlit("job.cancel");
    reveal_strlit("job.attach");
    assert("session.open"@[0] == 's' && "axp.describe"@[0] == 'a');
    assert("session.close"@[8] == 'c' && "session.audit"@[8] == 'a');
    assert("axp.index"@[0] == 'a' && "job.start"@[0] == 'j');
    assert("job.status"@[4] == 's' && "job.cancel"@[4] == 'c');
    assert("job.status"@[4] == 's' && "job.attach"@[4] == 'a');
    assert("job.cancel"@[4] == 'c' && "job.attach"@[4] == 'a');
    assert("session.open"@.len() == 12);
    assert("session.close"@.len() == 13);
    assert("session.audit"@.len() == 13);
    assert("axp.index"@.len() == 9);
    assert("axp.describe"@.len() == 12);
    assert("job.start"@.len() == 9);
    assert("job.status"@.len() == 10);
    assert("job.cancel"@.len() == 10);
    assert("job.attach"@.len() == 10);
}

/// A response carries the id of its request. A method that is served is answered
/// with the very result of its handler, or with the failure of it; one that is not
/// is refused whatever the handler gave, with a code of its own.
pub proof fn responses_answer_their_request(
    id: Option<serde_json::Value>,
    method: Seq<char>,
    outcome: Result<serde_json::Value, TransportError>,
    r: JsonRpcResponse,
)
    requires
        answered(id, method, outcome, r),
    ensures
        id matches Some(given) ==> r.id == given,
        r.body matches JsonRpcBody::Success { result } ==> outcome == Ok::<
            serde_json::Value,
            TransportError,
        >(result) && route_of(method) != Route::Unknown && method != "job.attach"@,
        route_of(method) == Route::Unknown ==> (r.body matches JsonRpcBody::Failure { error }
            && error.code == -32601 && error.message@ == "method not found: "@ + method),
        method == "job.attach"@ ==> (r.body matches JsonRpcBody::Failure { error } && error.code
            == -32600),
        route_of(method) != Route::Unknown && method != "job.attach"@ ==> match outcome {
            Ok(value) => r.body == (JsonRpcBody::Success { result: value }),
            Err(e) => r.body matches JsonRpcBody::Failure { error } && error@ == error_object(e@),
        },
{
    methods_and_routes_match(method, Route::JobAttach);
}

} // verus!
