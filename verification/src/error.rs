//! The error type of the runtime.

use vstd::prelude::*;
use vstd::string::*;

use crate::proto::ids::{JobId, SessionId};
use crate::sandbox::error::{sandbox_error_text, SandboxError, SandboxErrorView};
use crate::text::{
    begins_with, concat_text, decimal, decimal_text, finishes_with, lemma_message,
};

verus! {

/// The ways in which a runtime operation fails.
#[derive(Debug, PartialEq, Eq)]
#[non_exhaustive]
pub enum Error {
    /// A code path that has not yet been implemented.
    NotImplemented(&'static str),
    /// No live session has this id.
    SessionNotFound(SessionId),
    /// The caller owns no job with this id.
    JobNotFound(JobId),
    /// The catalog holds no capability of this name.
    CapabilityNotFound { name: String },
    /// The session does not hold the grant that the request needs.
    CapabilityDenied { required: String },
    /// A capability or one of its parameters is malformed.
    CapabilityParse { raw: String, reason: String },
    /// The workspace path cannot serve as a workspace root.
    InvalidWorkspace { path: String, reason: String },
    /// A path leaves the workspace.
    WorkspaceViolation { path: String },
    /// A provider with this id is already registered.
    DuplicateProvider { id: String },
    /// A provider offers the same capability name twice.
    DuplicateCapability { provider: String, name: String },
    /// A capability description fails the quality rules.
    DescriptionQuality { provider: String, capability: String, reason: String },
    /// A log would grow beyond its byte cap.
    LogBufferOverflow { cap: usize },
    /// Reading or writing a replay log failed.
    ReplayLogIo { path: String, reason: String },
    /// A replay log does not hold what a replay log holds.
    ReplayLogCorrupt { path: String, offset: u64, reason: String },
    /// A job process could not be started.
    JobSpawn { reason: String },
    /// The requested sandbox tier cannot be enforced here.
    SandboxUnavailable { source: SandboxError },
    /// Applying the sandbox policy failed.
    SandboxApply { source: SandboxError },
    /// A code submission is malformed.
    InvalidCodePayload { reason: String },
    /// The operating system's entropy source could not be read.
    Entropy,
}

/// A runtime failure, with its texts as sequences.
#[verifier::ext_equal]
pub enum ErrorView {
    NotImplemented(Seq<char>),
    SessionNotFound(Seq<char>),
    JobNotFound(Seq<char>),
    CapabilityNotFound { name: Seq<char> },
    CapabilityDenied { required: Seq<char> },
    CapabilityParse { raw: Seq<char>, reason: Seq<char> },
    InvalidWorkspace { path: Seq<char>, reason: Seq<char> },
    WorkspaceViolation { path: Seq<char> },
    DuplicateProvider { id: Seq<char> },
    DuplicateCapability { provider: Seq<char>, name: Seq<char> },
    DescriptionQuality { provider: Seq<char>, capability: Seq<char>, reason: Seq<char> },
    LogBufferOverflow { cap: usize },
    ReplayLogIo { path: Seq<char>, reason: Seq<char> },
    ReplayLogCorrupt { path: Seq<char>, offset: int, reason: Seq<char> },
    JobSpawn { reason: Seq<char> },
    SandboxUnavailable { source: SandboxErrorView },
    SandboxApply { source: SandboxErrorView },
    InvalidCodePayload { reason: Seq<char> },
    Entropy,
}

impl View for Error {
    type V = ErrorView;

    open spec fn view(&self) -> ErrorView {
        match self {
            Error::NotImplemented(what) => ErrorView::NotImplemented(what@),
            Error::SessionNotFound(id) => ErrorView::SessionNotFound(id@),
            Error::JobNotFound(id) => ErrorView::JobNotFound(id@),
            Error::CapabilityNotFound { name } => ErrorView::CapabilityNotFound { name: name@ },
            Error::CapabilityDenied { required } => ErrorView::CapabilityDenied {
                required: required@,
            },
            Error::CapabilityParse { raw, reason } => ErrorView::CapabilityParse {
                raw: raw@,
                reason: reason@,
            },
            Error::InvalidWorkspace { path, reason } => ErrorView::InvalidWorkspace {
                path: path@,
                reason: reason@,
            },
            Error::WorkspaceViolation { path } => ErrorView::WorkspaceViolation { path: path@ },
            Error::DuplicateProvider { id } => ErrorView::DuplicateProvider { id: id@ },
            Error::DuplicateCapability { provider, name } => ErrorView::DuplicateCapability {
                provider: provider@,
                name: name@,
            },
            Error::DescriptionQuality { provider, capability, reason } =>
                ErrorView::DescriptionQuality {
                provider: provider@,
                capability: capability@,
                reason: reason@,
            },
            Error::LogBufferOverflow { cap } => ErrorView::LogBufferOverflow { cap: *cap },
            Error::ReplayLogIo { path, reason } => ErrorView::ReplayLogIo {
                path: path@,
                reason: reason@,
            },
            Error::ReplayLogCorrupt { path, offset, reason } => ErrorView::ReplayLogCorrupt {
                path: path@,
                offset: *offset as int,
                reason: reason@,
            },
            Error::JobSpawn { reason } => ErrorView::JobSpawn { reason: reason@ },
            Error::SandboxUnavailable { source } => ErrorView::SandboxUnavailable {
                source: source@,
            },
            Error::SandboxApply { source } => ErrorView::SandboxApply { source: source@ },
            Error::InvalidCodePayload { reason } => ErrorView::InvalidCodePayload {
                reason: reason@,
            },
            Error::Entropy => ErrorView::Entropy,
        }
    }
}

/// The message of a runtime failure.
pub open spec fn error_text(e: ErrorView) -> Seq<char> {
    match e {
        ErrorView::NotImplemented(what) => "not yet implemented: "@ + what,
        ErrorView::SessionNotFound(id) => "session not found: "@ + id,
        ErrorView::JobNotFound(id) => "job not found: "@ + id,
        ErrorView::CapabilityNotFound { name } => "capability not found: "@ + name,
        ErrorView::CapabilityDenied { required } => "capability denied: "@ + required,
        ErrorView::CapabilityParse { raw, reason } => "invalid capability `"@ + raw + "`: "@
            + reason,
        ErrorView::InvalidWorkspace { path, reason } => "invalid workspace "@ + path + ": "@
            + reason,
        ErrorView::WorkspaceViolation { path } => "path escapes the workspace: "@ + path,
        ErrorView::DuplicateProvider { id } => "duplicate provider: "@ + id,
        ErrorView::DuplicateCapability { provider, name } => "duplicate capability `"@ + name
            + "` in provider "@ + provider,
        ErrorView::DescriptionQuality { provider, capability, reason } =>
            "description of capability `"@ + capability + "` in provider "@ + provider
            + " rejected: "@ + reason,
        ErrorView::LogBufferOverflow { cap } => "log buffer overflow: cap "@ + decimal(cap as nat)
            + " bytes"@,
        ErrorView::ReplayLogIo { path, reason } => "replay log I/O error at "@ + path + ": "@
            + reason,
        ErrorView::ReplayLogCorrupt { path, offset, reason } => "corrupt replay log "@ + path
            + " at offset "@ + decimal(offset as nat) + ": "@ + reason,
        ErrorView::JobSpawn { reason } => "failed to spawn job: "@ + reason,
        ErrorView::SandboxUnavailable { source } => "sandbox unavailable: "@ + sandbox_error_text(
            source,
        ),
        ErrorView::SandboxApply { source } => "sandbox apply failed: "@ + sandbox_error_text(
            source,
        ),
        ErrorView::InvalidCodePayload { reason } => "invalid code payload: "@ + reason,
        ErrorView::Entropy => "failed to read operating system entropy"@,
    }
}

impl Error {
    /// The message of this failure.
    pub fn text(&self) -> (r: String)
        ensures
            r@ == error_text(self@),
    {
        match self {
            Error::NotImplemented(what) => concat_text("not yet implemented: ", what),
            Error::SessionNotFound(id) => concat_text("session not found: ", id.as_str()),
            Error::JobNotFound(id) => concat_text("job not found: ", id.as_str()),
            Error::CapabilityNotFound { name } => concat_text("capability not found: ", name.as_str()),
            Error::CapabilityDenied { required } => concat_text(
                "capability denied: ",
                required.as_str(),
            ),
            Error::CapabilityParse { raw, reason } => {
                let mut s = concat_text("invalid capability `", raw.as_str());
                s.append("`: ");
                s.append(reason.as_str());
                s
            },
            Error::InvalidWorkspace { path, reason } => {
                let mut s = concat_text("invalid workspace ", path.as_str());
                s.append(": ");
                s.append(reason.as_str());
                s
            },
            Error::WorkspaceViolation { path } => concat_text(
                "path escapes the workspace: ",
                path.as_str(),
            ),
            Error::DuplicateProvider { id } => concat_text("duplicate provider: ", id.as_str()),
            Error::DuplicateCapability { provider, name } => {
                let mut s = concat_text("duplicate capability `", name.as_str());
                s.append("` in provider ");
                s.append(provider.as_str());
                s
            },
            Error::DescriptionQuality { provider, capability, reason } => {
                let mut s = concat_text("description of capability `", capability.as_str());
                s.append("` in provider ");
                s.append(provider.as_str());
                s.append(" rejected: ");
                s.append(reason.as_str());
                s
            },
            Error::LogBufferOverflow { cap } => {
                let digits = decimal_text(*cap as u64);
                let mut s = concat_text("log buffer overflow: cap ", digits.as_str());
                s.append(" bytes");
                s
            },
            Error::ReplayLogIo { path, reason } => {
                let mut s = concat_text("replay log I/O error at ", path.as_str());
                s.append(": ");
                s.append(reason.as_str());
                s
            },
            Error::ReplayLogCorrupt { path, offset, reason } => {
                let digits = decimal_text(*offset);
                let mut s = concat_text("corrupt replay log ", path.as_str());
                s.append(" at offset ");
                s.append(digits.as_str());
                s.append(": ");
                s.append(reason.as_str());
                s
            },
            Error::JobSpawn { reason } => concat_text("failed to spawn job: ", reason.as_str()),
            Error::SandboxUnavailable { source } => {
                let inner = source.text();
                concat_text("sandbox unavailable: ", inner.as_str())
            },
            Error::SandboxApply { source } => {
                let inner = source.text();
                concat_text("sandbox apply failed: ", inner.as_str())
            },
            Error::InvalidCodePayload { reason } => concat_text(
                "invalid code payload: ",
                reason.as_str(),
            ),
            Error::Entropy => "failed to read operating system entropy".to_owned(),
        }
    }
}

/// A result by the views of its success and its failure.
pub open spec fn outcome<T: View>(r: Result<T, Error>) -> Result<<T as View>::V, ErrorView> {
    match r {
        Ok(value) => Ok(value@),
        Err(e) => Err(e@),
    }
}

/// A failure is seen as the kind of failure that it is, with its own texts.
pub proof fn failures_are_seen_as_they_are(e: Error)
    ensures
        e is NotImplemented <==> e@ is NotImplemented,
        e is SessionNotFound <==> e@ is SessionNotFound,
        e is JobNotFound <==> e@ is JobNotFound,
        e is CapabilityNotFound <==> e@ is CapabilityNotFound,
        e is CapabilityDenied <==> e@ is CapabilityDenied,
        e is CapabilityParse <==> e@ is CapabilityParse,
        e is InvalidWorkspace <==> e@ is InvalidWorkspace,
        e is WorkspaceViolation <==> e@ is WorkspaceViolation,
        e is DuplicateProvider <==> e@ is DuplicateProvider,
        e is DuplicateCapability <==> e@ is DuplicateCapability,
        e is DescriptionQuality <==> e@ is DescriptionQuality,
        e is LogBufferOverflow <==> e@ is LogBufferOverflow,
        e is ReplayLogIo <==> e@ is ReplayLogIo,
        e is ReplayLogCorrupt <==> e@ is ReplayLogCorrupt,
        e is JobSpawn <==> e@ is JobSpawn,
        e is SandboxUnavailable <==> e@ is SandboxUnavailable,
        e is SandboxApply <==> e@ is SandboxApply,
        e is InvalidCodePayload <==> e@ is InvalidCodePayload,
        e is Entropy <==> e@ is Entropy,
        e matches Error::SessionNotFound(id) ==> e@ == ErrorView::SessionNotFound(id@),
        e matches Error::JobNotFound(id) ==> e@ == ErrorView::JobNotFound(id@),
        e matches Error::CapabilityNotFound { name } ==> e@ == (ErrorView::CapabilityNotFound {
            name: name@,
        }),
        e matches Error::CapabilityDenied { required } ==> e@ == (ErrorView::CapabilityDenied {
            required: required@,
        }),
        e matches Error::WorkspaceViolation { path } ==> e@ == (ErrorView::WorkspaceViolation {
            path: path@,
        }),
        e matches Error::LogBufferOverflow { cap } ==> e@ == (ErrorView::LogBufferOverflow { cap }),
        e matches Error::JobSpawn { reason } ==> e@ == (ErrorView::JobSpawn { reason: reason@ }),
{
}

/// A failure is told by its kind, and then by what it is about.
pub proof fn failures_are_told_by_kind(e: ErrorView)
    ensures
        e matches ErrorView::NotImplemented(what) ==> begins_with(error_text(e), "not yet implemented: "@) && finishes_with(
            error_text(e),
            what,
        ),
        e matches ErrorView::SessionNotFound(id) ==> begins_with(error_text(e), "session not found: "@) && finishes_with(
            error_text(e),
            id,
        ),
        e matches ErrorView::JobNotFound(id) ==> begins_with(error_text(e), "job not found: "@) && finishes_with(
            error_text(e),
            id,
        ),
        e matches ErrorView::CapabilityNotFound { name } ==> begins_with(error_text(e), "capability not found: "@) && finishes_with(
            error_text(e),
            name,
        ),
        e matches ErrorView::CapabilityDenied { required } ==> begins_with(error_text(e), "capability denied: "@) && finishes_with(
            error_text(e),
            required,
        ),
        e matches ErrorView::WorkspaceViolation { path } ==> begins_with(error_text(e), "path escapes the workspace: "@) && finishes_with(
            error_text(e),
            path,
        ),
        e matches ErrorView::DuplicateProvider { id } ==> begins_with(error_text(e), "duplicate provider: "@) && finishes_with(
            error_text(e),
            id,
        ),
        e matches ErrorView::JobSpawn { reason } ==> begins_with(error_text(e), "failed to spawn job: "@) && finishes_with(
            error_text(e),
            reason,
        ),
        e matches ErrorView::InvalidCodePayload { reason } ==> begins_with(error_text(e), "invalid code payload: "@) && finishes_with(
            error_text(e),
            reason,
        ),
        e matches ErrorView::SandboxUnavailable { source } ==> begins_with(error_text(e), "sandbox unavailable: "@) && finishes_with(
            error_text(e),
            sandbox_error_text(source),
        ),
        e matches ErrorView::SandboxApply { source } ==> begins_with(error_text(e), "sandbox apply failed: "@) && finishes_with(
            error_text(e),
            sandbox_error_text(source),
        ),
{
    match e {
        ErrorView::NotImplemented(what) => {
            lemma_message(error_text(e), "not yet implemented: "@, what);
        },
        ErrorView::SessionNotFound(id) => {
            lemma_message(error_text(e), "session not found: "@, id);
        },
        ErrorView::JobNotFound(id) => {
            lemma_message(error_text(e), "job not found: "@, id);
        },
        ErrorView::CapabilityNotFound { name } => {
            lemma_message(error_text(e), "capability not found: "@, name);
        },
        ErrorView::CapabilityDenied { required } => {
            lemma_message(error_text(e), "capability denied: "@, required);
        },
        ErrorView::WorkspaceViolation { path } => {
            lemma_message(error_text(e), "path escapes the workspace: "@, path);
        },
        ErrorView::DuplicateProvider { id } => {
            lemma_message(error_text(e), "duplicate provider: "@, id);
        },
        ErrorView::JobSpawn { reason } => {
            lemma_message(error_text(e), "failed to spawn job: "@, reason);
        },
        ErrorView::InvalidCodePayload { reason } => {
            lemma_message(error_text(e), "invalid code payload: "@, reason);
        },
        ErrorView::SandboxUnavailable { source } => {
            lemma_message(error_text(e), "sandbox unavailable: "@, sandbox_error_text(source));
        },
        ErrorView::SandboxApply { source } => {
            lemma_message(error_text(e), "sandbox apply failed: "@, sandbox_error_text(source));
        },
        _ => {},
    }
}

} // verus!
