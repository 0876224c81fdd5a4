//! What each method does to the state, once its parameters are decoded.
//!
//! Every method but `session.open` is authenticated first. An unknown session
//! and a wrong token are answered alike, so that the answer does not tell
//! whether a session exists.

use vstd::prelude::*;

use crate::auth::{minted, CapToken};
use crate::capability::{
    all_parsed, grants_keep_their_order, parsed, CapabilitySet, CapabilityView,
};
use crate::error::{Error, ErrorView};
use crate::job::engine::{
    every_cancellable_job_is_signalled_once, following, owns, signalled, start_settled,
    still_cancellable, EngineView, SpawnOutcome,
};
use crate::job::log::JobReplayLog;
use crate::job::plan::option_text;
use crate::job::status::StatusView;
use crate::job::store::{id_texts, ids_of};
use crate::path::is_absolute;
use crate::proto::capability::grant_texts;
use crate::proto::discovery::{CapabilityDetail, DescribeRequest, IndexRequest, IndexResponse};
use crate::proto::ids::{JobId, SessionId};
use crate::proto::job::{
    JobCancelRequest, JobCancelResponse, JobStartRequest, JobStartResponse, JobStatusProto,
    JobStatusRequest, JobStatusResponse,
};
use crate::proto::session::{
    SessionAuditEvent, SessionAuditEventKind, SessionAuditRequest, SessionAuditResponse,
    SessionCloseRequest, SessionCloseResponse, SessionOpenRequest, SessionOpenResponse,
};
use crate::proto::tier::EnforcementTier;
use crate::provider::{no_capability, Provider};
use crate::registry::{
    index_shows_each_visible_offer, lists_exactly, may_invoke, tools_are_open_to_their_holders,
};
use crate::session::{
    authorized, freshly_opened, AuditEvent, AuditEventKind, AuditKindView, AuditView, Session,
};
use crate::text::decimal;
use crate::time::{epoch_millis, millis_round_down, Timestamp};
use crate::transport::error::{TransportError, TransportErrorView};
use crate::transport::state::{session_name, AppState};
use crate::workspace::{workspace_outcome, Workspace};

verus! {

/// The authentication gate: the session is live and the presented token is its
/// token.
pub fn require_authorized_session<P: Provider>(
    state: &AppState<P>,
    id: &SessionId,
    presented: &str,
) -> (r: Result<(), TransportError>)
    requires
        state.wf(),
    ensures
        match r {
            Ok(_) => authorized(state.engine@.sessions, id@, presented@),
            Err(e) => !authorized(state.engine@.sessions, id@, presented@) && e@
                == TransportErrorView::Unauthorized,
        },
{
    if state.engine.sessions.authorize(id, presented) {
        Ok(())
    } else {
        Err(TransportError::Unauthorized)
    }
}

/// The grants of a session whose token was presented.
pub fn authenticated_session_capabilities<'a, P: Provider>(
    state: &'a AppState<P>,
    id: &SessionId,
    presented: &str,
) -> (r: Result<&'a CapabilitySet, TransportError>)
    requires
        state.wf(),
    ensures
        match r {
            Ok(grants) => {
                &&& authorized(state.engine@.sessions, id@, presented@)
                &&& grants@ == state.engine@.sessions[id@].capabilities@
            },
            Err(e) => !authorized(state.engine@.sessions, id@, presented@) && e@
                == TransportErrorView::Unauthorized,
        },
{
    match require_authorized_session(state, id, presented) {
        Err(e) => Err(e),
        Ok(_) => match state.engine.sessions.get(id) {
            Some(session) => Ok(&session.capabilities),
            None => Err(TransportError::Unauthorized),
        },
    }
}

/// Whether the state changed by exactly the opening of one session.
pub open spec fn opened(
    before: EngineView,
    after: EngineView,
    id: Seq<char>,
    root: Seq<char>,
    tier: EnforcementTier,
    grants: Seq<CapabilityView>,
    token: Seq<char>,
    now: Timestamp,
) -> bool {
    let session = after.sessions[id];
    &&& after == (EngineView { sessions: before.sessions.insert(id, session), ..before })
    &&& session.id@ == id
    &&& session.workspace@ == root
    &&& session.tier == tier
    &&& session.capabilities@ == grants
    &&& session.token@ == token
    &&& session.created_at == now
    &&& freshly_opened(session, now)
}

/// Whether `r` is what opening a session gives, and the state changed by exactly
/// that. The request is refused by the first of these that fails: the workspace,
/// the grants, the token. A number is used up once workspace and grants are good.
pub open spec fn open_settled<P: Provider>(
    before: AppState<P>,
    after: AppState<P>,
    req: SessionOpenRequest,
    canonical: Result<String, String>,
    token: Result<Seq<char>, ErrorView>,
    now: Timestamp,
    r: Result<SessionOpenResponse, TransportError>,
) -> bool {
    let id = session_name(before.session_counter as nat);
    match workspace_outcome(req.workspace@, canonical) {
        Err(refusal) => {
            &&& r matches Err(e) && e@ == TransportErrorView::Runtime(refusal)
            &&& after == before
        },
        Ok(root) => match all_parsed(grant_texts(req.capabilities@)) {
            Err(refusal) => {
                &&& r matches Err(e) && e@ == TransportErrorView::Runtime(refusal)
                &&& after == before
            },
            Ok(grants) => {
                &&& after.session_counter == following(before.session_counter)
                &&& after.engine.registry == before.engine.registry
                &&& match token {
                    Err(refusal) => {
                        &&& r matches Err(e) && e@ == TransportErrorView::Runtime(refusal)
                        &&& after.engine == before.engine
                    },
                    Ok(secret) => {
                        &&& r matches Ok(response) && response.session_id@ == id
                            && response.granted_tier == req.sandbox_tier && response.cap_token@
                            == secret
                        &&& opened(
                            before.engine@,
                            after.engine@,
                            id,
                            root,
                            req.sandbox_tier,
                            grants,
                            secret,
                            now,
                        )
                    },
                }
            },
        },
    }
}

/// A token or the failure of minting one, by what it says.
pub open spec fn token_outcome(token: Result<CapToken, Error>) -> Result<Seq<char>, ErrorView> {
    match token {
        Ok(t) => Ok(t@),
        Err(e) => Err(e@),
    }
}

/// Handle `session.open` with a minted token, given what resolving the
/// workspace path gave.
pub fn session_open_with<P: Provider>(
    state: &mut AppState<P>,
    req: &SessionOpenRequest,
    canonical: Result<String, String>,
    token: Result<CapToken, Error>,
    now: Timestamp,
) -> (r: Result<SessionOpenResponse, TransportError>)
    requires
        old(state).wf(),
    ensures
        final(state).wf(),
        open_settled(
            *old(state),
            *final(state),
            *req,
            canonical,
            token_outcome(token),
            now,
            r,
        ),
{
    let workspace = match Workspace::new(req.workspace.as_str(), canonical) {
        Ok(workspace) => workspace,
        Err(e) => return Err(TransportError::Runtime(e)),
    };
    let grants = match CapabilitySet::from_wire(req.capabilities.as_slice()) {
        Ok(grants) => grants,
        Err(e) => return Err(TransportError::Runtime(e)),
    };
    let id = state.next_session_id();
    let secret = match token {
        Ok(secret) => secret,
        Err(e) => return Err(TransportError::Runtime(e)),
    };
    let response = SessionOpenResponse {
        session_id: id.clone(),
        granted_tier: req.sandbox_tier,
        cap_token: secret.expose().to_owned(),
    };
    let ghost before = state.engine@;
    let ghost name = id@;
    state.engine.sessions.open(id, workspace, req.sandbox_tier, grants, secret, now);
    assert(state.engine@.sessions =~= before.sessions.insert(name, state.engine@.sessions[name]));
    Ok(response)
}

/// Handle `session.open`: open a session with a freshly minted token, given what
/// resolving the workspace path gave.
pub fn session_open<P: Provider>(
    state: &mut AppState<P>,
    req: &SessionOpenRequest,
    canonical: Result<String, String>,
    now: Timestamp,
) -> (r: Result<SessionOpenResponse, TransportError>)
    requires
        old(state).wf(),
    ensures
        final(state).wf(),
        exists|token: Result<CapToken, Error>|
            {
                &&& match token {
                    Ok(secret) => minted(secret@),
                    Err(e) => e@ == ErrorView::Entropy,
                }
                &&& open_settled(
                    *old(state),
                    *final(state),
                    *req,
                    canonical,
                    #[trigger] token_outcome(token),
                    now,
                    r,
                )
            },
{
    let token = CapToken::generate();
    session_open_with(state, req, canonical, token, now)
}

/// What closing a session gives: the response, and the jobs that the caller has
/// to signal.
#[derive(Debug)]
pub struct ClosedSession {
    /// The response.
    pub response: SessionCloseResponse,
    /// The jobs to signal.
    pub signalled: Vec<JobId>,
}

/// Whether `r` is what closing a session gives, and the state changed by exactly
/// that.
pub open spec fn close_settled<P: Provider>(
    before: AppState<P>,
    after: AppState<P>,
    req: SessionCloseRequest,
    r: Result<ClosedSession, TransportError>,
) -> bool {
    if authorized(before.engine@.sessions, req.session_id@, req.cap_token@) {
        let ids = ids_of(before.engine@.jobs, req.session_id@);
        &&& r matches Ok(closed) && closed.response.ok && id_texts(closed.signalled@) == signalled(
            ids,
            before.engine@.cancellable,
        )
        &&& after.engine@ == (EngineView {
            sessions: before.engine@.sessions.remove(req.session_id@),
            cancellable: still_cancellable(ids, before.engine@.cancellable),
            ..before.engine@
        })
    } else {
        &&& r matches Err(e) && e@ == TransportErrorView::Unauthorized
        &&& after == before
    }
}

/// Handle `session.close`: cancel the session's jobs and close it, which revokes
/// its token.
pub fn session_close<P: Provider>(
    state: &mut AppState<P>,
    req: &SessionCloseRequest,
    now: Timestamp,
) -> (r: Result<ClosedSession, TransportError>)
    requires
        old(state).wf(),
    ensures
        final(state).wf(),
        final(state).session_counter == old(state).session_counter,
        final(state).engine.registry == old(state).engine.registry,
        close_settled(*old(state), *final(state), *req, r),
{
    match require_authorized_session(state, &req.session_id, req.cap_token.as_str()) {
        Err(e) => return Err(e),
        Ok(_) => {},
    }
    let signalled = state.engine.cancel_for_session(&req.session_id);
    match state.engine.sessions.close(&req.session_id, now) {
        Ok(_) => Ok(ClosedSession { response: SessionCloseResponse { ok: true }, signalled }),
        Err(e) => Err(TransportError::Runtime(e)),
    }
}

/// The kind of an audit event in wire form, by what it says.
pub open spec fn wire_kind(kind: SessionAuditEventKind) -> AuditKindView {
    match kind {
        SessionAuditEventKind::SessionOpened => AuditKindView::SessionOpened,
        SessionAuditEventKind::SessionClosed => AuditKindView::SessionClosed,
        SessionAuditEventKind::JobStarted { job_id } => AuditKindView::JobStarted {
            job_id: job_id@,
        },
        SessionAuditEventKind::JobFinished { job_id, status } => AuditKindView::JobFinished {
            job_id: job_id@,
            status: status@,
        },
    }
}

/// Whether a wire event stands for an audit event: the same kind, and its time
/// in milliseconds.
pub open spec fn stands_for(wire: SessionAuditEvent, event: AuditView) -> bool {
    &&& wire.ts_millis == epoch_millis(event.timestamp.nanos_since_epoch as int)
    &&& wire_kind(wire.kind) == event.kind
}

/// The wire form of an audit event.
pub fn audit_to_wire(event: &AuditEvent) -> (r: SessionAuditEvent)
    ensures
        stands_for(r, event@),
{
    SessionAuditEvent {
        ts_millis: event.timestamp.millis_since_epoch(),
        kind: match &event.kind {
            AuditEventKind::SessionOpened => SessionAuditEventKind::SessionOpened,
            AuditEventKind::SessionClosed => SessionAuditEventKind::SessionClosed,
            AuditEventKind::JobStarted { job_id } => SessionAuditEventKind::JobStarted {
                job_id: job_id.clone(),
            },
            AuditEventKind::JobFinished { job_id, status } => SessionAuditEventKind::JobFinished {
                job_id: job_id.clone(),
                status: match status {
                    JobStatusProto::Pending => JobStatusProto::Pending,
                    JobStatusProto::Running => JobStatusProto::Running,
                    JobStatusProto::Exited { code } => JobStatusProto::Exited { code: *code },
                    JobStatusProto::Killed => JobStatusProto::Killed,
                    JobStatusProto::Failed { reason } => JobStatusProto::Failed {
                        reason: reason.clone(),
                    },
                },
            },
        },
    }
}

/// Whether `r` is what a look at the audit log of a session gives.
pub open spec fn audit_told(
    state: EngineView,
    req: SessionAuditRequest,
    r: Result<SessionAuditResponse, TransportError>,
) -> bool {
    if authorized(state.sessions, req.session_id@, req.cap_token@) {
        let log = state.sessions[req.session_id@].audit_log();
        r matches Ok(response) && response.events@.len() == log.len() && forall|i: int|
            0 <= i < log.len() ==> stands_for(#[trigger] response.events@[i], log[i])
    } else {
        r matches Err(e) && e@ == TransportErrorView::Unauthorized
    }
}

/// Handle `session.audit`: the audit log of a session, oldest event first.
pub fn session_audit<P: Provider>(state: &AppState<P>, req: &SessionAuditRequest) -> (r: Result<
    SessionAuditResponse,
    TransportError,
>)
    requires
        state.wf(),
    ensures
        audit_told(state.engine@, *req, r),
{
    match require_authorized_session(state, &req.session_id, req.cap_token.as_str()) {
        Err(e) => return Err(e),
        Ok(_) => {},
    }
    match state.engine.sessions.get(&req.session_id) {
        None => Err(TransportError::Unauthorized),
        Some(session) => {
            let log = session.audit_events();
            let ghost views = session.audit_log();
            let mut events: Vec<SessionAuditEvent> = Vec::new();
            let mut i: usize = 0;
            assert(crate::session::audit_views(log@).len() == views.len());
            while i < log.len()
                invariant
                    i <= log@.len() == views.len(),
                    views == crate::session::audit_views(log@),
                    events@.len() == i,
                    forall|k: int|
                        0 <= k < i ==> stands_for(#[trigger] events@[k], views[k]),
                decreases log@.len() - i,
            {
                assert(views[i as int] == log@[i as int]@);
                events.push(audit_to_wire(&log[i]));
                i = i + 1;
            }
            Ok(SessionAuditResponse { events })
        },
    }
}

/// Whether `r` is what a look at the catalog gives to a session.
pub open spec fn index_told<P: Provider>(
    state: AppState<P>,
    req: IndexRequest,
    r: Result<IndexResponse, TransportError>,
) -> bool {
    if authorized(state.engine@.sessions, req.session_id@, req.cap_token@) {
        let grants = state.engine@.sessions[req.session_id@].capabilities@;
        r matches Ok(response) && lists_exactly(
            response.entries@,
            state.engine.registry.catalog().entries,
            |name: Seq<char>| may_invoke(grants, name),
        )
    } else {
        r matches Err(e) && e@ == TransportErrorView::Unauthorized
    }
}

/// Handle `axp.index`: the catalog, scoped to the grants of the session.
pub fn index<P: Provider>(state: &AppState<P>, req: &IndexRequest) -> (r: Result<
    IndexResponse,
    TransportError,
>)
    requires
        state.wf(),
    ensures
        index_told(*state, *req, r),
{
    match authenticated_session_capabilities(state, &req.session_id, req.cap_token.as_str()) {
        Err(e) => Err(e),
        Ok(grants) => match state.engine.registry.index_for_capabilities(grants) {
            Ok(response) => Ok(response),
            Err(e) => Err(TransportError::Runtime(e)),
        },
    }
}

/// Whether `r` is what asking for the detail of a capability gives to a session.
pub open spec fn detail_told<P: Provider>(
    state: AppState<P>,
    req: DescribeRequest,
    r: Result<CapabilityDetail, TransportError>,
) -> bool {
    if authorized(state.engine@.sessions, req.session_id@, req.cap_token@) {
        let grants = state.engine@.sessions[req.session_id@].capabilities@;
        let registry = state.engine.registry;
        if registry.catalog().entries.contains_key(req.name@) && may_invoke(grants, req.name@) {
            match r {
                Ok(detail) => registry.described_by_owner(req.name@, Ok(detail@)),
                Err(e) => e@ matches TransportErrorView::Runtime(failure)
                    && registry.described_by_owner(req.name@, Err(failure)),
            }
        } else {
            r matches Err(e) && e@ == TransportErrorView::Runtime(no_capability(req.name@))
        }
    } else {
        r matches Err(e) && e@ == TransportErrorView::Unauthorized
    }
}

/// Handle `axp.describe`: the detail of one capability. One that the session may
/// not invoke is answered as one that does not exist.
pub fn describe<P: Provider>(state: &AppState<P>, req: &DescribeRequest) -> (r: Result<
    CapabilityDetail,
    TransportError,
>)
    requires
        state.wf(),
    ensures
        detail_told(*state, *req, r),
{
    match authenticated_session_capabilities(state, &req.session_id, req.cap_token.as_str()) {
        Err(e) => Err(e),
        Ok(grants) => match state.engine.registry.describe_for_capabilities(
            req.name.as_str(),
            grants,
        ) {
            Ok(detail) => Ok(detail),
            Err(e) => Err(TransportError::Runtime(e)),
        },
    }
}

/// Whether `r` answers a start, and the state changed by exactly that.
pub open spec fn start_answered<P: Provider>(
    before: AppState<P>,
    after: AppState<P>,
    req: JobStartRequest,
    canonical: Option<Seq<char>>,
    spawned: SpawnOutcome,
    now: Timestamp,
    r: Result<JobStartResponse, TransportError>,
) -> bool {
    if authorized(before.engine@.sessions, req.session_id@, req.cap_token@) {
        match r {
            Ok(response) => start_settled(
                before.engine.registry,
                before.engine@,
                after.engine@,
                req,
                canonical,
                spawned,
                now,
                Ok(response.job_id@),
            ),
            Err(e) => e@ matches TransportErrorView::Runtime(failure) && start_settled(
                before.engine.registry,
                before.engine@,
                after.engine@,
                req,
                canonical,
                spawned,
                now,
                Err(failure),
            ),
        }
    } else {
        &&& r matches Err(e) && e@ == TransportErrorView::Unauthorized
        &&& after == before
    }
}

/// Handle `job.start`, given what resolving the working directory gave and what
/// came of starting the job.
pub fn job_start<P: Provider>(
    state: &mut AppState<P>,
    req: &JobStartRequest,
    canonical: Option<String>,
    spawned: SpawnOutcome,
    now: Timestamp,
) -> (r: Result<JobStartResponse, TransportError>)
    requires
        old(state).wf(),
    ensures
        final(state).wf(),
        final(state).session_counter == old(state).session_counter,
        final(state).engine.registry == old(state).engine.registry,
        start_answered(
            *old(state),
            *final(state),
            *req,
            option_text(canonical),
            spawned,
            now,
            r,
        ),
{
    match require_authorized_session(state, &req.session_id, req.cap_token.as_str()) {
        Err(e) => return Err(e),
        Ok(_) => {},
    }
    match state.engine.start(req, canonical, spawned, now) {
        Ok(job_id) => Ok(JobStartResponse { job_id }),
        Err(e) => Err(TransportError::Runtime(e)),
    }
}

/// Whether `r` answers a look at a job.
pub open spec fn status_answered(
    state: EngineView,
    req: JobStatusRequest,
    r: Result<JobStatusResponse, TransportError>,
) -> bool {
    if !authorized(state.sessions, req.session_id@, req.cap_token@) {
        r matches Err(e) && e@ == TransportErrorView::Unauthorized
    } else if owns(state, req.session_id@, req.job_id@) {
        let job = state.jobs.jobs[req.job_id@];
        r matches Ok(response) && response.job_id@ == req.job_id@ && response.status@ == job.status@
            && response.seq == job.log_buffer.log().len()
    } else {
        r matches Err(e) && e@ == TransportErrorView::Runtime(ErrorView::JobNotFound(req.job_id@))
    }
}

/// Handle `job.status`: a job of another session is answered as one that does
/// not exist.
pub fn job_status<P: Provider>(state: &AppState<P>, req: &JobStatusRequest) -> (r: Result<
    JobStatusResponse,
    TransportError,
>)
    requires
        state.wf(),
    ensures
        status_answered(state.engine@, *req, r),
{
    match require_authorized_session(state, &req.session_id, req.cap_token.as_str()) {
        Err(e) => return Err(e),
        Ok(_) => {},
    }
    match state.engine.status(req) {
        Ok(response) => Ok(response),
        Err(e) => Err(TransportError::Runtime(e)),
    }
}

/// Whether `r` answers a cancellation, and the state changed by exactly that.
pub open spec fn cancel_answered<P: Provider>(
    before: AppState<P>,
    after: AppState<P>,
    req: JobCancelRequest,
    r: Result<JobCancelResponse, TransportError>,
) -> bool {
    let was = before.engine@;
    if !authorized(was.sessions, req.session_id@, req.cap_token@) {
        &&& r matches Err(e) && e@ == TransportErrorView::Unauthorized
        &&& after == before
    } else if owns(was, req.session_id@, req.job_id@) {
        &&& r matches Ok(response) && response.ok == was.cancellable.contains(req.job_id@)
        &&& after.engine@ == (EngineView {
            cancellable: was.cancellable.remove(req.job_id@),
            ..was
        })
    } else {
        &&& r matches Err(e) && e@ == TransportErrorView::Runtime(
            ErrorView::JobNotFound(req.job_id@),
        )
        &&& after.engine@ == was
    }
}

/// Handle `job.cancel`: `ok` says whether there was something to cancel; then the
/// caller signals the job.
pub fn job_cancel<P: Provider>(state: &mut AppState<P>, req: &JobCancelRequest) -> (r: Result<
    JobCancelResponse,
    TransportError,
>)
    requires
        old(state).wf(),
    ensures
        final(state).wf(),
        final(state).session_counter == old(state).session_counter,
        final(state).engine.registry == old(state).engine.registry,
        cancel_answered(*old(state), *final(state), *req, r),
{
    match require_authorized_session(state, &req.session_id, req.cap_token.as_str()) {
        Err(e) => return Err(e),
        Ok(_) => {},
    }
    match state.engine.cancel(req) {
        Ok(response) => Ok(response),
        Err(e) => Err(TransportError::Runtime(e)),
    }
}

/// The token that opening a session gives authorises calls in it, and no other
/// text does.
pub proof fn opening_authorises_exactly_its_token(
    before: EngineView,
    after: EngineView,
    id: Seq<char>,
    root: Seq<char>,
    tier: EnforcementTier,
    grants: Seq<CapabilityView>,
    token: Seq<char>,
    now: Timestamp,
    presented: Seq<char>,
)
    requires
        opened(before, after, id, root, tier, grants, token, now),
    ensures
        authorized(after.sessions, id, presented) <==> presented == token,
{
}

/// Opening a session leaves the others as they were, with their tokens.
pub proof fn opening_leaves_other_sessions(
    before: EngineView,
    after: EngineView,
    id: Seq<char>,
    root: Seq<char>,
    tier: EnforcementTier,
    grants: Seq<CapabilityView>,
    token: Seq<char>,
    now: Timestamp,
    other: Seq<char>,
    presented: Seq<char>,
)
    requires
        opened(before, after, id, root, tier, grants, token, now),
        other != id,
    ensures
        after.sessions.contains_key(other) <==> before.sessions.contains_key(other),
        before.sessions.contains_key(other) ==> after.sessions[other] == before.sessions[other],
        authorized(after.sessions, other, presented) <==> authorized(
            before.sessions,
            other,
            presented,
        ),
{
}

/// Once a session is closed no token authorises calls in it.
pub proof fn closing_revokes_the_token(
    sessions: Map<Seq<char>, Session>,
    id: Seq<char>,
    presented: Seq<char>,
)
    ensures
        !authorized(sessions.remove(id), id, presented),
{
}

/// A session is opened as it was asked for: with the resolved workspace, the tier
/// and the grants of the request in their order, under the number that was next,
/// and with the token that is handed out. A refused request opens nothing; it is
/// refused exactly for a workspace that does not resolve to an absolute path, a
/// malformed grant, or a token that could not be minted.
pub proof fn sessions_open_as_asked_for<P: Provider>(
    before: AppState<P>,
    after: AppState<P>,
    req: SessionOpenRequest,
    canonical: Result<String, String>,
    token: Result<Seq<char>, ErrorView>,
    now: Timestamp,
    r: Result<SessionOpenResponse, TransportError>,
    at: int,
)
    requires
        open_settled(before, after, req, canonical, token, now, r),
    ensures
        r is Ok <==> {
            &&& canonical matches Ok(root) && is_absolute(root@)
            &&& forall|i: int|
                0 <= i < req.capabilities@.len() ==> parsed((#[trigger] req.capabilities@[i])@) is Ok
            &&& token is Ok
        },
        r matches Ok(response) ==> {
            let session = after.engine@.sessions[response.session_id@];
            &&& response.session_id@ == "s_"@ + decimal(before.session_counter as nat)
            &&& response.granted_tier == req.sandbox_tier
            &&& token == Ok::<Seq<char>, ErrorView>(response.cap_token@)
            &&& after.engine@.sessions.contains_key(response.session_id@)
            &&& session.token@ == response.cap_token@
            &&& session.workspace@ == canonical->Ok_0@
            &&& session.tier == req.sandbox_tier
            &&& session.capabilities@.len() == req.capabilities@.len()
            &&& 0 <= at < req.capabilities@.len() ==> parsed(req.capabilities@[at]@) == Ok::<
                CapabilityView,
                ErrorView,
            >(session.capabilities@[at])
            &&& session.created_at == now
            &&& session.audit_log().len() == 1
            &&& session.audit_log()[0].kind == AuditKindView::SessionOpened
            &&& after.engine@.jobs == before.engine@.jobs
            &&& after.engine@.cancellable == before.engine@.cancellable
            &&& after.session_counter as int == (before.session_counter + 1)
                % 0x1_0000_0000_0000_0000
        },
        r is Err ==> after.engine@ == before.engine@,
{
    let wire = grant_texts(req.capabilities@);
    grants_keep_their_order(wire);
    assert forall|i: int| 0 <= i < req.capabilities@.len() implies #[trigger] wire[i]
        == req.capabilities@[i]@ by {}
    if forall|i: int|
        0 <= i < req.capabilities@.len() ==> parsed((#[trigger] req.capabilities@[i])@) is Ok {
        assert forall|i: int| 0 <= i < wire.len() implies parsed(#[trigger] wire[i]) is Ok by {
            assert(parsed(req.capabilities@[i]@) is Ok);
        }
    }
    if all_parsed(wire) is Ok {
        assert forall|i: int| 0 <= i < req.capabilities@.len() implies parsed(
            (#[trigger] req.capabilities@[i])@,
        ) is Ok by {
            assert(parsed(wire[i]) is Ok);
        }
        if 0 <= at < wire.len() {
            assert(parsed(wire[at]) is Ok);
        }
    }
}

/// Whether a request is let in: its session is live and it presents the token of
/// that session.
pub open spec fn let_in(state: EngineView, id: Seq<char>, presented: Seq<char>) -> bool {
    state.sessions.contains_key(id) && state.sessions[id].token@ == presented
}

/// Closing a session needs its token, takes it and its token away, signals each of
/// its jobs that can still be cancelled, and leaves every other session and every
/// job where it was.
pub proof fn closing_ends_one_session<P: Provider>(
    before: AppState<P>,
    after: AppState<P>,
    req: SessionCloseRequest,
    r: Result<ClosedSession, TransportError>,
    other: Seq<char>,
)
    requires
        close_settled(before, after, req, r),
    ensures
        r is Ok <==> let_in(before.engine@, req.session_id@, req.cap_token@),
        r matches Ok(closed) ==> {
            &&& closed.response.ok
            &&& !after.engine@.sessions.contains_key(req.session_id@)
            &&& other != req.session_id@ ==> after.engine@.sessions.contains_key(other)
                == before.engine@.sessions.contains_key(other) && after.engine@.sessions[other]
                == before.engine@.sessions[other]
            &&& after.engine@.jobs == before.engine@.jobs
            &&& id_texts(closed.signalled@).contains(other) <==> ids_of(
                before.engine@.jobs,
                req.session_id@,
            ).contains(other) && before.engine@.cancellable.contains(other)
            &&& after.engine@.cancellable.contains(other) <==> before.engine@.cancellable.contains(
                other,
            ) && !ids_of(before.engine@.jobs, req.session_id@).contains(other)
        },
        r matches Err(e) ==> e@ == TransportErrorView::Unauthorized && after == before,
{
    every_cancellable_job_is_signalled_once(
        ids_of(before.engine@.jobs, req.session_id@),
        before.engine@.cancellable,
    );
    if r is Ok {
        let told = id_texts(r->Ok_0.signalled@);
        assert(told == signalled(
            ids_of(before.engine@.jobs, req.session_id@),
            before.engine@.cancellable,
        ));
    }
}

/// A wire event says what its audit event says: what kind it is, of which job, and
/// with which status that ended.
pub proof fn audit_kinds_stay_apart_on_the_wire(wire: SessionAuditEvent, event: AuditView)
    requires
        stands_for(wire, event),
    ensures
        wire.kind is SessionOpened <==> event.kind is SessionOpened,
        wire.kind is SessionClosed <==> event.kind is SessionClosed,
        wire.kind is JobStarted <==> event.kind is JobStarted,
        wire.kind is JobFinished <==> event.kind is JobFinished,
        wire.kind matches SessionAuditEventKind::JobStarted { job_id } ==> event.kind == (
        AuditKindView::JobStarted { job_id: job_id@ }),
        wire.kind matches SessionAuditEventKind::JobFinished { job_id, status } ==> event.kind == (
        AuditKindView::JobFinished { job_id: job_id@, status: status@ }),
        0 <= event.timestamp.nanos_since_epoch < 1_000_000 * 0x1_0000_0000_0000_0000
            ==> wire.ts_millis * 1_000_000 <= event.timestamp.nanos_since_epoch < (wire.ts_millis
            + 1) * 1_000_000,
{
    if 0 <= event.timestamp.nanos_since_epoch < 1_000_000 * 0x1_0000_0000_0000_0000 {
        millis_round_down(event.timestamp.nanos_since_epoch as int);
    }
}

/// The audit log is told whole and in order to whoever is let in, and to nobody
/// else.
pub proof fn audit_log_is_told_whole(
    state: EngineView,
    req: SessionAuditRequest,
    r: Result<SessionAuditResponse, TransportError>,
    at: int,
)
    requires
        audit_told(state, req, r),
    ensures
        r is Ok <==> let_in(state, req.session_id@, req.cap_token@),
        r matches Ok(response) ==> {
            let log = state.sessions[req.session_id@].audit_log();
            &&& response.events@.len() == log.len()
            &&& 0 <= at < log.len() ==> stands_for(response.events@[at], log[at])
        },
        r matches Err(e) ==> e@ == TransportErrorView::Unauthorized,
{
}

/// Whoever is let in sees the names of the catalog that its grants open, each with
/// its description, and no other name; with the grant to spawn that is all of them.
pub proof fn index_shows_what_the_grants_open<P: Provider>(
    state: AppState<P>,
    req: IndexRequest,
    r: Result<IndexResponse, TransportError>,
    name: Seq<char>,
)
    requires
        index_told(state, req, r),
    ensures
        r is Ok <==> let_in(state.engine@, req.session_id@, req.cap_token@),
        r matches Ok(response) ==> {
            let grants = state.engine@.sessions[req.session_id@].capabilities@;
            let entries = state.engine.registry.catalog().entries;
            &&& (exists|i: int|
                0 <= i < response.entries@.len() && (#[trigger] response.entries@[i]).name@ == name
                    && response.entries@[i].desc@ == entries[name].desc) <==> (
            entries.contains_key(name) && (grants.contains(CapabilityView::ProcSpawn)
                || grants.contains(CapabilityView::Tool(name))))
        },
        r matches Err(e) ==> e@ == TransportErrorView::Unauthorized,
{
    if let Ok(response) = r {
        let grants = state.engine@.sessions[req.session_id@].capabilities@;
        let entries = state.engine.registry.catalog().entries;
        let visible = |n: Seq<char>| may_invoke(grants, n);
        index_shows_each_visible_offer(response.entries@, entries, visible, name);
        tools_are_open_to_their_holders(grants, name);
    }
}

/// Whoever is let in learns the detail of a capability as its owner describes it,
/// where the catalog has it and its grants open it; otherwise there is none.
pub proof fn details_are_told_to_holders<P: Provider>(
    state: AppState<P>,
    req: DescribeRequest,
    r: Result<CapabilityDetail, TransportError>,
)
    requires
        detail_told(state, req, r),
    ensures
        ({
            let known = let_in(state.engine@, req.session_id@, req.cap_token@);
            let grants = state.engine@.sessions[req.session_id@].capabilities@;
            let open = grants.contains(CapabilityView::ProcSpawn) || grants.contains(
                CapabilityView::Tool(req.name@),
            );
            let registry = state.engine.registry;
            &&& !known ==> (r matches Err(e) && e@ == TransportErrorView::Unauthorized)
            &&& known && !(open && registry.catalog().entries.contains_key(req.name@)) ==> (
            r matches Err(e) && e@ == TransportErrorView::Runtime(
                ErrorView::CapabilityNotFound { name: req.name@ },
            ))
            &&& r matches Ok(detail) ==> known && open && registry.described_by_owner(
                req.name@,
                Ok(detail@),
            )
        }),
{
    tools_are_open_to_their_holders(
        state.engine@.sessions[req.session_id@].capabilities@,
        req.name@,
    );
}

/// A job is started, looked at and cancelled only by a request that is let in; any
/// other is answered alike, whether the session exists or not, and changes nothing.
pub proof fn jobs_are_served_to_those_let_in<P: Provider>(
    before: AppState<P>,
    after: AppState<P>,
    start: JobStartRequest,
    canonical: Option<Seq<char>>,
    spawned: SpawnOutcome,
    now: Timestamp,
    started: Result<JobStartResponse, TransportError>,
    cancelled_after: AppState<P>,
    cancel: JobCancelRequest,
    cancelled: Result<JobCancelResponse, TransportError>,
    look: JobStatusRequest,
    told: Result<JobStatusResponse, TransportError>,
)
    requires
        start_answered(before, after, start, canonical, spawned, now, started),
        cancel_answered(before, cancelled_after, cancel, cancelled),
        status_answered(before.engine@, look, told),
    ensures
        !let_in(before.engine@, start.session_id@, start.cap_token@) ==> (started matches Err(e)
            && e@ == TransportErrorView::Unauthorized && after == before),
        started matches Ok(response) ==> {
            &&& spawned is Spawned
            &&& after.engine@.jobs.jobs.contains_key(response.job_id@)
            &&& after.engine@.jobs.jobs[response.job_id@].payload == start.payload
            &&& after.engine@.jobs.jobs[response.job_id@].session_id@ == start.session_id@
            &&& after.engine@.jobs.jobs[response.job_id@].status@ == StatusView::Running
        },
        started is Err ==> after.engine@ == before.engine@,
        !let_in(before.engine@, cancel.session_id@, cancel.cap_token@) ==> (cancelled matches Err(e)
            && e@ == TransportErrorView::Unauthorized && cancelled_after == before),
        cancelled is Ok <==> let_in(before.engine@, cancel.session_id@, cancel.cap_token@)
            && before.engine@.jobs.jobs.contains_key(cancel.job_id@)
            && before.engine@.jobs.jobs[cancel.job_id@].session_id@ == cancel.session_id@,
        cancelled matches Ok(response) ==> {
            &&& response.ok == before.engine@.cancellable.contains(cancel.job_id@)
            &&& !cancelled_after.engine@.cancellable.contains(cancel.job_id@)
            &&& cancelled_after.engine@.jobs == before.engine@.jobs
            &&& cancelled_after.engine@.sessions == before.engine@.sessions
        },
        told is Ok <==> let_in(before.engine@, look.session_id@, look.cap_token@)
            && before.engine@.jobs.jobs.contains_key(look.job_id@)
            && before.engine@.jobs.jobs[look.job_id@].session_id@ == look.session_id@,
        told matches Ok(response) ==> {
            let job = before.engine@.jobs.jobs[look.job_id@];
            &&& response.job_id@ == look.job_id@
            &&& response.status@ == job.status@
            &&& response.seq == job.log_buffer.log().len()
        },
        !let_in(before.engine@, look.session_id@, look.cap_token@) ==> (told matches Err(e) && e@
            == TransportErrorView::Unauthorized),
{
}

/// A refused opening says what refused it: a workspace that did not resolve,
/// else a grant that is not one, else the token; and it opens nothing.
pub proof fn refused_openings_tell_the_first_cause<P: Provider>(
    before: AppState<P>,
    after: AppState<P>,
    req: SessionOpenRequest,
    canonical: Result<String, String>,
    token: Result<Seq<char>, ErrorView>,
    now: Timestamp,
    r: Result<SessionOpenResponse, TransportError>,
)
    requires
        open_settled(before, after, req, canonical, token, now, r),
    ensures
        r matches Err(e) ==> {
            let workspace = workspace_outcome(req.workspace@, canonical);
            let grants = all_parsed(grant_texts(req.capabilities@));
            &&& workspace matches Err(refusal) ==> e@ == TransportErrorView::Runtime(refusal)
            &&& workspace is Ok ==> (grants matches Err(refusal) ==> e@
                == TransportErrorView::Runtime(refusal))
            &&& workspace is Ok && grants is Ok ==> (token matches Err(refusal) && e@
                == TransportErrorView::Runtime(refusal))
            &&& after.engine == before.engine
        },
{
}

/// Only an owner's cancelling changes anything: a request that is refused leaves
/// the engine as it was and says that there is no such job.
pub proof fn refused_calls_about_jobs_change_nothing<P: Provider>(
    before: AppState<P>,
    after: AppState<P>,
    cancel: JobCancelRequest,
    cancelled: Result<JobCancelResponse, TransportError>,
    look: JobStatusRequest,
    told: Result<JobStatusResponse, TransportError>,
)
    requires
        cancel_answered(before, after, cancel, cancelled),
        status_answered(before.engine@, look, told),
    ensures
        cancelled is Err ==> after.engine@ == before.engine@,
        let_in(before.engine@, cancel.session_id@, cancel.cap_token@) ==> (cancelled matches Err(e)
            ==> e@ == TransportErrorView::Runtime(ErrorView::JobNotFound(cancel.job_id@))),
        let_in(before.engine@, look.session_id@, look.cap_token@) ==> (told matches Err(e) ==> e@
            == TransportErrorView::Runtime(ErrorView::JobNotFound(look.job_id@))),
{
}

} // verus!
