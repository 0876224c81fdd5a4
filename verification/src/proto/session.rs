//! Session lifecycle request, response, and audit event types.

use vstd::prelude::*;

use crate::proto::capability::Capability;
use crate::proto::ids::{JobId, SessionId};
use crate::proto::job::JobStatusProto;
use crate::proto::tier::EnforcementTier;

verus! {

/// `session.open` request.
#[derive(Debug, Clone, PartialEq, Eq)]
pub struct SessionOpenRequest {
    /// Filesystem path to the workspace root.
    pub workspace: String,
    /// Requested sandbox enforcement tier.
    pub sandbox_tier: EnforcementTier,
    /// Requested capability grants.
    pub capabilities: Vec<Capability>,
}

/// `session.open` response.
#[derive(Debug, Clone, PartialEq, Eq)]
pub struct SessionOpenResponse {
    /// The assigned session identifier.
    pub session_id: SessionId,
    /// The enforcement tier granted.
    pub granted_tier: EnforcementTier,
    /// Opaque capability token for subsequent calls.
    pub cap_token: String,
}

/// `session.close` request.
#[derive(Debug, Clone, PartialEq, Eq)]
pub struct SessionCloseRequest {
    /// The session to close.
    pub session_id: SessionId,
    /// Opaque capability token proving authority over the session.
    pub cap_token: String,
}

/// `session.close` response.
#[derive(Debug, Clone, Copy, PartialEq, Eq, Structural)]
pub struct SessionCloseResponse {
    /// True when the session was closed.
    pub ok: bool,
}

/// `session.audit` request.
#[derive(Debug, Clone, PartialEq, Eq)]
pub struct SessionAuditRequest {
    /// The live session to read audit events from.
    pub session_id: SessionId,
    /// Opaque capability token proving authority over the session.
    pub cap_token: String,
}

/// `session.audit` response.
#[derive(Debug, Clone, PartialEq, Eq)]
pub struct SessionAuditResponse {
    /// Ordered audit events recorded for the live session.
    pub events: Vec<SessionAuditEvent>,
}

/// An audit event in wire form.
#[derive(Debug, Clone, PartialEq, Eq)]
pub struct SessionAuditEvent {
    /// Milliseconds since the Unix epoch when the event was recorded.
    pub ts_millis: u64,
    /// Event-specific payload.
    pub kind: SessionAuditEventKind,
}

/// Audit event payloads in wire form.
#[derive(Debug, Clone, PartialEq, Eq)]
pub enum SessionAuditEventKind {
    /// The session was opened.
    SessionOpened,
    /// The session was closed.
    SessionClosed,
    /// A job was started in this session.
    JobStarted {
        /// The id of the job that started.
        job_id: JobId,
    },
    /// A job reached a terminal status in this session.
    JobFinished {
        /// The id of the job that finished.
        job_id: JobId,
        /// The terminal status reached by the job.
        status: JobStatusProto,
    },
}

} // verus!
