//! Runtime session model and in-memory session store.

use vstd::prelude::*;

use crate::auth::CapToken;
use crate::capability::CapabilitySet;
use crate::error::{Error, ErrorView};
use crate::job::status::StatusView;
use crate::proto::ids::{JobId, SessionId};
use crate::proto::job::JobStatusProto;
use crate::proto::tier::EnforcementTier;
use crate::textmap::TextMap;
use crate::time::Timestamp;
use crate::workspace::Workspace;

verus! {

/// A single audit-log entry of a session.
#[derive(Debug)]
pub struct AuditEvent {
    /// Wall-clock time when the event was recorded.
    pub timestamp: Timestamp,
    /// The kind of event.
    pub kind: AuditEventKind,
}

/// The kind of an audit event.
#[derive(Debug)]
#[non_exhaustive]
pub enum AuditEventKind {
    /// The session was opened.
    SessionOpened,
    /// The session was closed.
    SessionClosed,
    /// A job was started in this session.
    JobStarted {
        /// The id of the job that started.
        job_id: JobId,
    },
    /// A job in this session reached a terminal state.
    JobFinished {
        /// The id of the job that finished.
        job_id: JobId,
        /// The terminal status the job reached.
        status: JobStatusProto,
    },
}

/// The kind of an audit event, with its texts as sequences.
#[verifier::ext_equal]
pub enum AuditKindView {
    SessionOpened,
    SessionClosed,
    JobStarted { job_id: Seq<char> },
    JobFinished { job_id: Seq<char>, status: StatusView },
}

impl View for AuditEventKind {
    type V = AuditKindView;

    open spec fn view(&self) -> AuditKindView {
        match self {
            AuditEventKind::SessionOpened => AuditKindView::SessionOpened,
            AuditEventKind::SessionClosed => AuditKindView::SessionClosed,
            AuditEventKind::JobStarted { job_id } => AuditKindView::JobStarted { job_id: job_id@ },
            AuditEventKind::JobFinished { job_id, status } => AuditKindView::JobFinished {
                job_id: job_id@,
                status: status@,
            },
        }
    }
}

impl Clone for AuditEventKind {
    fn clone(&self) -> (r: Self)
        ensures
            r@ == self@,
    {
        match self {
            AuditEventKind::SessionOpened => AuditEventKind::SessionOpened,
            AuditEventKind::SessionClosed => AuditEventKind::SessionClosed,
            AuditEventKind::JobStarted { job_id } => AuditEventKind::JobStarted {
                job_id: job_id.clone(),
            },
            AuditEventKind::JobFinished { job_id, status } => AuditEventKind::JobFinished {
                job_id: job_id.clone(),
                status: status.clone(),
            },
        }
    }
}

/// What an audit event says.
#[verifier::ext_equal]
pub struct AuditView {
    pub timestamp: Timestamp,
    pub kind: AuditKindView,
}

impl View for AuditEvent {
    type V = AuditView;

    open spec fn view(&self) -> AuditView {
        AuditView { timestamp: self.timestamp, kind: self.kind@ }
    }
}

impl Clone for AuditEvent {
    fn clone(&self) -> (r: Self)
        ensures
            r@ == self@,
    {
        AuditEvent { timestamp: self.timestamp, kind: self.kind.clone() }
    }
}

/// The events of an audit log.
pub open spec fn audit_views(events: Seq<AuditEvent>) -> Seq<AuditView> {
    Seq::new(events.len(), |i: int| events[i]@)
}

/// A live agent session: an identity, a workspace, an enforcement tier and
/// capability grants, with the log of what happened to it.
pub struct Session {
    /// The session identifier.
    pub id: SessionId,
    /// The workspace this session is scoped to.
    pub workspace: Workspace,
    /// The sandbox enforcement tier under which this session runs.
    pub tier: EnforcementTier,
    /// The grants held by this session.
    pub capabilities: CapabilitySet,
    /// The credential that authorises calls in this session.
    pub token: CapToken,
    /// The wall-clock time at which this session was created.
    pub created_at: Timestamp,
    /// The audit log, oldest event first.
    pub audit_events: Vec<AuditEvent>,
}

impl Session {
    /// The audit log of this session.
    pub open spec fn audit_log(&self) -> Seq<AuditView> {
        audit_views(self.audit_events@)
    }

    /// Create a session without audit events.
    pub fn new(
        id: SessionId,
        workspace: Workspace,
        tier: EnforcementTier,
        capabilities: CapabilitySet,
        token: CapToken,
        now: Timestamp,
    ) -> (r: Self)
        ensures
            r.id == id,
            r.workspace == workspace,
            r.tier == tier,
            r.capabilities == capabilities,
            r.token == token,
            r.created_at == now,
            r.audit_log() == Seq::<AuditView>::empty(),
    {
        let r = Session {
            id,
            workspace,
            tier,
            capabilities,
            token,
            created_at: now,
            audit_events: Vec::new(),
        };
        assert(r.audit_log() =~= Seq::<AuditView>::empty());
        r
    }

    /// Append an audit event to this session's log.
    pub fn record_audit(&mut self, kind: AuditEventKind, now: Timestamp)
        ensures
            recorded(*old(self), *final(self), (AuditView { timestamp: now, kind: kind@ })),
    {
        let ghost before = self.audit_log();
        self.audit_events.push(AuditEvent { timestamp: now, kind });
        assert(self.audit_log() =~= before.push(AuditView { timestamp: now, kind: kind@ }));
    }

    /// All audit events recorded for this session, oldest first.
    pub fn audit_events(&self) -> (r: &[AuditEvent])
        ensures
            audit_views(r@) == self.audit_log(),
    {
        self.audit_events.as_slice()
    }
}

/// Whether two sessions differ at most in their audit logs.
pub open spec fn same_but_log(a: Session, b: Session) -> bool {
    &&& a.id == b.id
    &&& a.workspace == b.workspace
    &&& a.tier == b.tier
    &&& a.capabilities == b.capabilities
    &&& a.token == b.token
    &&& a.created_at == b.created_at
}

/// Whether a session changed by exactly one audit event at the end of its log.
pub open spec fn recorded(before: Session, after: Session, event: AuditView) -> bool {
    same_but_log(before, after) && after.audit_log() == before.audit_log().push(event)
}

/// The store of live sessions.
pub struct SessionStore {
    sessions: TextMap<Session>,
}

impl View for SessionStore {
    type V = Map<Seq<char>, Session>;

    closed spec fn view(&self) -> Map<Seq<char>, Session> {
        self.sessions@
    }
}

impl Default for SessionStore {
    fn default() -> (r: Self)
        ensures
            r.wf(),
            r@ == Map::<Seq<char>, Session>::empty(),
    {
        SessionStore { sessions: TextMap::new() }
    }
}

/// Whether a session is a freshly opened one: its log holds its opening alone.
pub open spec fn freshly_opened(s: Session, now: Timestamp) -> bool {
    s.audit_log() == seq![AuditView { timestamp: now, kind: AuditKindView::SessionOpened }]
}

impl SessionStore {
    /// What holds of every store: each session stands under its own id.
    pub closed spec fn wf(&self) -> bool {
        &&& self.sessions.wf()
        &&& forall|id: Seq<char>| #[trigger]
            self.sessions@.contains_key(id) ==> self.sessions@[id].id@ == id
    }

    /// In a well-formed store each session stands under its own id.
    pub proof fn sessions_stand_under_their_ids(&self)
        requires
            self.wf(),
        ensures
            forall|id: Seq<char>| #[trigger] self@.contains_key(id) ==> self@[id].id@ == id,
    {
    }

    /// Create an empty store.
    pub fn new() -> (r: Self)
        ensures
            r.wf(),
            r@ == Map::<Seq<char>, Session>::empty(),
    {
        SessionStore { sessions: TextMap::new() }
    }

    /// Open a session under the given id and record its opening. A session that
    /// had the id is replaced.
    pub fn open(
        &mut self,
        id: SessionId,
        workspace: Workspace,
        tier: EnforcementTier,
        capabilities: CapabilitySet,
        token: CapToken,
        now: Timestamp,
    )
        requires
            old(self).wf(),
        ensures
            final(self).wf(),
            final(self)@.dom() == old(self)@.dom().insert(id@),
            forall|other: Seq<char>|
                other != id@ && old(self)@.contains_key(other) ==> #[trigger] final(self)@[other]
                    == old(self)@[other],
            ({
                let opened = final(self)@[id@];
                &&& opened.id == id
                &&& opened.workspace == workspace
                &&& opened.tier == tier
                &&& opened.capabilities == capabilities
                &&& opened.token == token
                &&& opened.created_at == now
                &&& freshly_opened(opened, now)
            }),
    {
        let key = id.0.clone();
        let mut session = Session::new(id, workspace, tier, capabilities, token, now);
        session.record_audit(AuditEventKind::SessionOpened, now);
        assert(session.audit_log() =~= seq![
            AuditView { timestamp: now, kind: AuditKindView::SessionOpened },
        ]);
        let ghost opened = session;
        let ghost before = self.sessions@;
        let _ = self.sessions.insert(key, session);
        assert(self@.dom() =~= before.dom().insert(id@));
    }

    /// Look up a live session.
    pub fn get(&self, id: &SessionId) -> (r: Option<&Session>)
        requires
            self.wf(),
        ensures
            match r {
                Some(session) => self@.contains_key(id@) && *session == self@[id@],
                None => !self@.contains_key(id@),
            },
    {
        self.sessions.get(id.as_str())
    }

    /// Close a session: take it out of the store and record its closing. The
    /// closed session comes back.
    pub fn close(&mut self, id: &SessionId, now: Timestamp) -> (r: Result<Session, Error>)
        requires
            old(self).wf(),
        ensures
            final(self).wf(),
            final(self)@ == old(self)@.remove(id@),
            match r {
                Ok(closed) => old(self)@.contains_key(id@) && recorded(
                    old(self)@[id@],
                    closed,
                    (AuditView { timestamp: now, kind: AuditKindView::SessionClosed }),
                ),
                Err(e) => !old(self)@.contains_key(id@) && e@ == ErrorView::SessionNotFound(id@),
            },
    {
        match self.sessions.remove(id.as_str()) {
            None => Err(Error::SessionNotFound(id.clone())),
            Some(session) => {
                let mut closed = session;
                closed.record_audit(AuditEventKind::SessionClosed, now);
                Ok(closed)
            },
        }
    }

    /// Whether `presented` is the token of the live session `id`; a session
    /// that is not live has none.
    pub fn authorize(&self, id: &SessionId, presented: &str) -> (r: bool)
        requires
            self.wf(),
        ensures
            r == authorized(self@, id@, presented@),
    {
        match self.sessions.get(id.as_str()) {
            None => false,
            Some(session) => session.token.verify(presented),
        }
    }

    /// Record an audit event on a live session; nothing happens where the
    /// session is not live.
    pub fn record(&mut self, id: &SessionId, kind: AuditEventKind, now: Timestamp)
        requires
            old(self).wf(),
        ensures
            final(self).wf(),
            audited(old(self)@, final(self)@, id@, (AuditView { timestamp: now, kind: kind@ })),
    {
        match self.sessions.get_mut(id.as_str()) {
            None => {},
            Some(session) => {
                session.record_audit(kind, now);
            },
        }
    }
}

/// Whether `presented` is the token of a live session.
pub open spec fn authorized(
    sessions: Map<Seq<char>, Session>,
    id: Seq<char>,
    presented: Seq<char>,
) -> bool {
    sessions.contains_key(id) && sessions[id].token@ == presented
}

/// Whether the live sessions changed by exactly one audit event on one of them,
/// or not at all where that one is not live.
pub open spec fn audited(
    before: Map<Seq<char>, Session>,
    after: Map<Seq<char>, Session>,
    id: Seq<char>,
    event: AuditView,
) -> bool {
    if before.contains_key(id) {
        &&& after == before.insert(id, after[id])
        &&& recorded(before[id], after[id], event)
    } else {
        after == before
    }
}

/// Whether a session is the same as before but for audit events added at the
/// end of its log: its workspace, tier, grants and token stay.
pub open spec fn only_audited(before: Session, after: Session) -> bool {
    same_but_log(before, after) && before.audit_log().is_prefix_of(after.audit_log())
}

/// Whether the same sessions are live, each the same but for audit events added.
pub open spec fn sessions_kept(
    before: Map<Seq<char>, Session>,
    after: Map<Seq<char>, Session>,
) -> bool {
    &&& after.dom() == before.dom()
    &&& forall|id: Seq<char>|
        before.contains_key(id) ==> only_audited(before[id], #[trigger] after[id])
}

/// The audit log is append-only, and recording an event changes nothing else of
/// any session.
pub proof fn auditing_only_appends(
    before: Map<Seq<char>, Session>,
    after: Map<Seq<char>, Session>,
    id: Seq<char>,
    event: AuditView,
)
    requires
        audited(before, after, id, event),
    ensures
        sessions_kept(before, after),
{
    assert(after.dom() =~= before.dom());
    assert forall|other: Seq<char>| before.contains_key(other) implies only_audited(
        before[other],
        #[trigger] after[other],
    ) by {
        let log = before[other].audit_log();
        if other == id {
            assert(log.push(event).subrange(0, log.len() as int) =~= log);
        } else {
            assert(log.subrange(0, log.len() as int) =~= log);
        }
    }
}

/// A session is reached with its own token and with no other text, and a session
/// that is not live with none.
pub proof fn one_token_opens_a_session(
    sessions: Map<Seq<char>, Session>,
    id: Seq<char>,
    presented: Seq<char>,
    other: Seq<char>,
)
    ensures
        sessions.contains_key(id) ==> authorized(sessions, id, sessions[id].token@),
        authorized(sessions, id, presented) && authorized(sessions, id, other) ==> presented
            == other,
        authorized(sessions, id, presented) ==> sessions.contains_key(id)
            && sessions[id].token@ == presented,
        !sessions.contains_key(id) ==> !authorized(sessions, id, presented),
{
}

/// An audit event comes last in the log of its own session, as it was given, and
/// every other session stays as it was.
pub proof fn audit_event_comes_last(
    before: Map<Seq<char>, Session>,
    after: Map<Seq<char>, Session>,
    id: Seq<char>,
    event: AuditView,
    other: Seq<char>,
)
    requires
        audited(before, after, id, event),
    ensures
        before.contains_key(id) ==> {
            &&& after[id].audit_log().len() == before[id].audit_log().len() + 1
            &&& after[id].audit_log().last() == event
            &&& after[id].token == before[id].token
            &&& after[id].capabilities == before[id].capabilities
            &&& after[id].workspace == before[id].workspace
            &&& after[id].tier == before[id].tier
        },
        after.contains_key(other) == before.contains_key(other),
        other != id && before.contains_key(other) ==> after[other] == before[other],
{
}

/// The log of a session begins with its opening and nothing else.
pub proof fn fresh_log_holds_the_opening(s: Session, now: Timestamp)
    requires
        freshly_opened(s, now),
    ensures
        s.audit_log().len() == 1,
        s.audit_log()[0].kind == AuditKindView::SessionOpened,
        s.audit_log()[0].timestamp == now,
{
}

/// An audit event is seen as what it records: its kind, its job and how that
/// ended, at its own time.
pub proof fn audit_events_are_seen_as_they_are(event: AuditEvent)
    ensures
        event@.timestamp == event.timestamp,
        event.kind is SessionOpened <==> event@.kind is SessionOpened,
        event.kind is SessionClosed <==> event@.kind is SessionClosed,
        event.kind matches AuditEventKind::JobStarted { job_id } ==> event@.kind == (
        AuditKindView::JobStarted { job_id: job_id@ }),
        event.kind matches AuditEventKind::JobFinished { job_id, status } ==> event@.kind == (
        AuditKindView::JobFinished { job_id: job_id@, status: status@ }),
{
}

} // verus!
