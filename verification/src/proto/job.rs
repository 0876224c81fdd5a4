//! `job.*` request and response types.

use vstd::prelude::*;

use crate::proto::capability::Capability;
use crate::proto::ids::{JobId, SessionId};

verus! {

/// The work a job runs.
#[derive(Debug, PartialEq, Eq)]
pub enum JobPayload {
    /// A shell command string.
    Command {
        /// The shell command to execute.
        command: String,
    },
    /// A code submission executed inside the sandbox.
    Code {
        /// The code to execute.
        code: String,
        /// The runtime identifier; absent means the server default.
        lang: Option<String>,
    },
    /// The invocation of a catalog capability.
    Capability {
        /// The exposed capability name.
        name: String,
        /// The parameters of the invocation.
        params: serde_json::Value,
    },
}

impl Clone for JobPayload {
    fn clone(&self) -> (r: Self)
        ensures
            r == *self,
    {
        match self {
            JobPayload::Command { command } => JobPayload::Command { command: command.clone() },
            JobPayload::Code { code, lang } => JobPayload::Code {
                code: code.clone(),
                lang: match lang {
                    Some(name) => Some(name.clone()),
                    None => None,
                },
            },
            JobPayload::Capability { name, params } => JobPayload::Capability {
                name: name.clone(),
                params: params.clone(),
            },
        }
    }
}

/// `job.start` request.
#[derive(Debug, Clone, PartialEq, Eq)]
pub struct JobStartRequest {
    /// The session this job runs within.
    pub session_id: SessionId,
    /// Opaque capability token proving authority over the session.
    pub cap_token: String,
    /// The work to run.
    pub payload: JobPayload,
    /// Working directory within the workspace; the workspace root if absent.
    pub cwd: Option<String>,
    /// Grants scoped to this job, an attenuation of the session's grants.
    pub capabilities: Vec<Capability>,
}

/// `job.start` response.
#[derive(Debug, Clone, PartialEq, Eq)]
pub struct JobStartResponse {
    /// The identifier assigned to the newly started job.
    pub job_id: JobId,
}

/// Job status in wire form.
#[derive(Debug, PartialEq, Eq)]
pub enum JobStatusProto {
    /// Created, not yet started.
    Pending,
    /// The process is running.
    Running,
    /// The process exited with this code.
    Exited {
        /// The exit code.
        code: i32,
    },
    /// The process was killed by a signal or a cancellation.
    Killed,
    /// The job failed before or around execution.
    Failed {
        /// What went wrong.
        reason: String,
    },
}

impl Clone for JobStatusProto {
    fn clone(&self) -> (r: Self)
        ensures
            r == *self,
    {
        match self {
            JobStatusProto::Pending => JobStatusProto::Pending,
            JobStatusProto::Running => JobStatusProto::Running,
            JobStatusProto::Exited { code } => JobStatusProto::Exited { code: *code },
            JobStatusProto::Killed => JobStatusProto::Killed,
            JobStatusProto::Failed { reason } => JobStatusProto::Failed { reason: reason.clone() },
        }
    }
}

/// Which standard stream a log frame came from, in wire form.
#[derive(Debug, Clone, Copy, PartialEq, Eq, Structural)]
pub enum LogStreamProto {
    /// Standard output.
    Stdout,
    /// Standard error.
    Stderr,
}

/// A single log frame streamed to an attached client.
#[derive(Debug, Clone, PartialEq, Eq)]
pub struct LogEventFrame {
    /// The job this frame belongs to.
    pub job_id: JobId,
    /// Sequence number of this frame within the job's log stream.
    pub seq: u64,
    /// Which standard stream the bytes came from.
    pub stream: LogStreamProto,
    /// Raw log bytes of this chunk.
    pub data: Vec<u8>,
    /// Milliseconds since the Unix epoch when the chunk was captured.
    pub ts_millis: u64,
}

/// What a log frame says, with its texts and bytes as sequences.
#[verifier::ext_equal]
pub struct LogEventFrameView {
    pub job_id: Seq<char>,
    pub seq: u64,
    pub stream: LogStreamProto,
    pub data: Seq<u8>,
    pub ts_millis: u64,
}

impl View for LogEventFrame {
    type V = LogEventFrameView;

    open spec fn view(&self) -> LogEventFrameView {
        LogEventFrameView {
            job_id: self.job_id@,
            seq: self.seq,
            stream: self.stream,
            data: self.data@,
            ts_millis: self.ts_millis,
        }
    }
}

/// `job.attach` request: attach to a job's log stream from a given offset.
#[derive(Debug, Clone, PartialEq, Eq)]
pub struct JobAttachRequest {
    /// The session the caller is operating within; it must own the job.
    pub session_id: SessionId,
    /// Opaque capability token proving authority over the session.
    pub cap_token: String,
    /// The job to attach to.
    pub job_id: JobId,
    /// Resume from this sequence number; 0 is the beginning.
    pub from_offset: u64,
}

/// `job.status` request.
#[derive(Debug, Clone, PartialEq, Eq)]
pub struct JobStatusRequest {
    /// The session the caller is operating within; it must own the job.
    pub session_id: SessionId,
    /// Opaque capability token proving authority over the session.
    pub cap_token: String,
    /// The job to report on.
    pub job_id: JobId,
}

/// `job.status` response.
#[derive(Debug, Clone, PartialEq, Eq)]
pub struct JobStatusResponse {
    /// The job this status describes.
    pub job_id: JobId,
    /// Current lifecycle status of the job.
    pub status: JobStatusProto,
    /// Current number of buffered log events.
    pub seq: u64,
}

/// `job.cancel` request.
#[derive(Debug, Clone, PartialEq, Eq)]
pub struct JobCancelRequest {
    /// The session the caller is operating within; it must own the job.
    pub session_id: SessionId,
    /// Opaque capability token proving authority over the session.
    pub cap_token: String,
    /// The job to cancel.
    pub job_id: JobId,
}

/// `job.cancel` response.
#[derive(Debug, Clone, Copy, PartialEq, Eq, Structural)]
pub struct JobCancelResponse {
    /// True if a running job was signalled; false if it was already finished.
    pub ok: bool,
}

} // verus!
