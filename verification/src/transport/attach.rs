//! Attaching to the log of a job as an event stream.

use vstd::prelude::*;

use crate::error::ErrorView;
use crate::job::engine::{owns, EngineView};
use crate::job::log::JobReplayLog;
use crate::job::stream::JobLogStream;
use crate::proto::job::JobAttachRequest;
use crate::provider::Provider;
use crate::session::authorized;
use crate::text::{
    decimal, parse_number, parsed_number, written_number_is_read_back,
};
use crate::transport::error::{TransportError, TransportErrorView};
use crate::transport::handlers::require_authorized_session;
use crate::transport::jsonrpc::{DENIED, INVALID_PARAMS, NOT_FOUND, UNAUTHORIZED};
use crate::transport::state::AppState;

verus! {

/// The position at which a stream resumes: the last event id where the client
/// sent one that is a number, otherwise the offset of the request.
pub open spec fn resume_position(last_event_id: Option<Seq<char>>, from_offset: u64) -> u64 {
    match last_event_id {
        Some(text) => match parsed_number(text) {
            Some(n) => n,
            None => from_offset,
        },
        None => from_offset,
    }
}

/// The position at which a stream resumes.
pub fn resume_from(last_event_id: Option<&str>, from_offset: u64) -> (r: u64)
    ensures
        r == resume_position(
            match last_event_id {
                Some(text) => Some(text@),
                None => None,
            },
            from_offset,
        ),
{
    match last_event_id {
        Some(text) => match parse_number(text) {
            Some(n) => n,
            None => from_offset,
        },
        None => from_offset,
    }
}

/// A client that sends the last event id that it was given resumes there,
/// whatever offset its request has.
pub proof fn sent_event_id_wins(id: u64, from_offset: u64)
    ensures
        resume_position(Some(decimal(id as nat)), from_offset) == id,
{
    written_number_is_read_back(id);
}

/// The HTTP status of an error code on the event stream endpoint.
pub open spec fn http_status_of(code: i64) -> u16 {
    if code == NOT_FOUND {
        404
    } else if code == DENIED {
        403
    } else if code == UNAUTHORIZED {
        401
    } else if code == INVALID_PARAMS {
        400
    } else {
        500
    }
}

/// The HTTP status of an error code on the event stream endpoint.
pub fn http_status(code: i64) -> (r: u16)
    ensures
        r == http_status_of(code),
{
    if code == NOT_FOUND {
        404
    } else if code == DENIED {
        403
    } else if code == UNAUTHORIZED {
        401
    } else if code == INVALID_PARAMS {
        400
    } else {
        500
    }
}

/// Whether `r` is what attaching to a job's log gives.
pub open spec fn attach_settled(
    state: EngineView,
    req: JobAttachRequest,
    last_event_id: Option<Seq<char>>,
    r: Result<JobLogStream, TransportError>,
) -> bool {
    if !authorized(state.sessions, req.session_id@, req.cap_token@) {
        r matches Err(e) && e@ == TransportErrorView::Unauthorized
    } else if owns(state, req.session_id@, req.job_id@) {
        let job = state.jobs.jobs[req.job_id@];
        r matches Ok(stream) && {
            &&& stream.job() == job.id@
            &&& stream.signal() == job.log_buffer.signal()
            &&& stream.follows(job.log_buffer.log())
            &&& stream.position() == resume_position(last_event_id, req.from_offset)
        }
    } else {
        r matches Err(e) && e@ == TransportErrorView::Runtime(ErrorView::JobNotFound(req.job_id@))
    }
}

/// Attach to the log of a job: authenticated first, then as the engine does.
/// The stream begins at the position where it resumes.
pub fn attach<P: Provider>(
    state: &AppState<P>,
    req: &JobAttachRequest,
    last_event_id: Option<&str>,
) -> (r: Result<JobLogStream, TransportError>)
    requires
        state.wf(),
    ensures
        attach_settled(
            state.engine@,
            *req,
            match last_event_id {
                Some(text) => Some(text@),
                None => None,
            },
            r,
        ),
{
    match require_authorized_session(state, &req.session_id, req.cap_token.as_str()) {
        Err(e) => return Err(e),
        Ok(_) => {},
    }
    let resumed = JobAttachRequest {
        session_id: req.session_id.clone(),
        cap_token: req.cap_token.clone(),
        job_id: req.job_id.clone(),
        from_offset: resume_from(last_event_id, req.from_offset),
    };
    match state.engine.attach(&resumed) {
        Ok(stream) => Ok(stream),
        Err(e) => Err(TransportError::Runtime(e)),
    }
}

/// Without an event id, or with one that is no number, a stream starts where the
/// request says.
pub proof fn offset_counts_without_an_event_id(text: Seq<char>, from_offset: u64)
    ensures
        resume_position(None, from_offset) == from_offset,
        parsed_number(text) is None ==> resume_position(Some(text), from_offset) == from_offset,
        parsed_number(text) matches Some(n) ==> resume_position(Some(text), from_offset) == n,
{
}

/// The log of a job is streamed to the session that owns it, from the position
/// that it asked for or last saw; a wrong token learns nothing, and the job of
/// another session does not exist.
pub proof fn logs_are_streamed_to_their_owner(
    state: EngineView,
    req: JobAttachRequest,
    last_event_id: Option<Seq<char>>,
    r: Result<JobLogStream, TransportError>,
    seen: u64,
)
    requires
        attach_settled(state, req, last_event_id, r),
    ensures
        ({
            let known = state.sessions.contains_key(req.session_id@)
                && state.sessions[req.session_id@].token@ == req.cap_token@;
            let own = state.jobs.jobs.contains_key(req.job_id@)
                && state.jobs.jobs[req.job_id@].session_id@ == req.session_id@;
            &&& r is Ok <==> known && own
            &&& !known ==> (r matches Err(e) && e@ == TransportErrorView::Unauthorized)
            &&& known && !own ==> (r matches Err(e) && e@ == TransportErrorView::Runtime(
                ErrorView::JobNotFound(req.job_id@),
            ))
            &&& r matches Ok(stream) ==> {
                &&& last_event_id is None ==> stream.position() == req.from_offset
                &&& last_event_id == Some(decimal(seen as nat)) ==> stream.position() == seen
                &&& stream.follows(state.jobs.jobs[req.job_id@].log_buffer.log())
            }
        }),
{
    written_number_is_read_back(seen);
}

/// On the event stream each refusal has its own HTTP status: 404 for what is not
/// there, 403 for a missing grant, 401 for a wrong token, 400 for bad parameters,
/// and 500 for anything else.
pub proof fn refusals_have_their_http_status(code: i64)
    ensures
        http_status_of(code) == 404 <==> code == -32001,
        http_status_of(code) == 403 <==> code == -32002,
        http_status_of(code) == 401 <==> code == -32004,
        http_status_of(code) == 400 <==> code == -32602,
        http_status_of(code) == 500 <==> code != -32001 && code != -32002 && code != -32004 && code
            != -32602,
{
}

/// A stream that was handed out is that of the job's own log: it bears the job's
/// id and wakes when the job's log does.
pub proof fn streams_belong_to_their_job(
    state: EngineView,
    req: JobAttachRequest,
    last_event_id: Option<Seq<char>>,
    r: Result<JobLogStream, TransportError>,
)
    requires
        attach_settled(state, req, last_event_id, r),
    ensures
        r matches Ok(stream) ==> {
            let job = state.jobs.jobs[req.job_id@];
            &&& stream.job() == job.id@
            &&& stream.signal() == job.log_buffer.signal()
        },
{
}

} // verus!
