//! Runtime job status and its conversions to and from the wire form.

use vstd::prelude::*;

use crate::proto::job::JobStatusProto;

verus! {

/// Runtime job status, which converts losslessly to and from the wire form.
#[derive(Debug, PartialEq, Eq)]
pub enum JobStatus {
    /// Created, not yet started.
    Pending,
    /// The process is running.
    Running,
    /// The process exited with this code.
    Exited {
        /// The exit code.
        code: i32,
    },
    /// The process was killed by a signal or a cancellation.
    Killed,
    /// The job failed before or around execution.
    Failed {
        /// What went wrong.
        reason: String,
    },
}

/// A job status, with its text as a sequence.
#[verifier::ext_equal]
pub enum StatusView {
    Pending,
    Running,
    Exited { code: i32 },
    Killed,
    Failed { reason: Seq<char> },
}

impl View for JobStatus {
    type V = StatusView;

    open spec fn view(&self) -> StatusView {
        match self {
            JobStatus::Pending => StatusView::Pending,
            JobStatus::Running => StatusView::Running,
            JobStatus::Exited { code } => StatusView::Exited { code: *code },
            JobStatus::Killed => StatusView::Killed,
            JobStatus::Failed { reason } => StatusView::Failed { reason: reason@ },
        }
    }
}

impl View for JobStatusProto {
    type V = StatusView;

    open spec fn view(&self) -> StatusView {
        match self {
            JobStatusProto::Pending => StatusView::Pending,
            JobStatusProto::Running => StatusView::Running,
            JobStatusProto::Exited { code } => StatusView::Exited { code: *code },
            JobStatusProto::Killed => StatusView::Killed,
            JobStatusProto::Failed { reason } => StatusView::Failed { reason: reason@ },
        }
    }
}

impl Clone for JobStatus {
    fn clone(&self) -> (r: Self)
        ensures
            r == *self,
    {
        match self {
            JobStatus::Pending => JobStatus::Pending,
            JobStatus::Running => JobStatus::Running,
            JobStatus::Exited { code } => JobStatus::Exited { code: *code },
            JobStatus::Killed => JobStatus::Killed,
            JobStatus::Failed { reason } => JobStatus::Failed { reason: reason.clone() },
        }
    }
}

/// Whether no transition leads out of a status.
pub open spec fn terminal(status: StatusView) -> bool {
    status is Exited || status is Killed || status is Failed
}

impl JobStatus {
    /// Whether the job has reached a terminal state.
    pub fn is_terminal(&self) -> (r: bool)
        ensures
            r == terminal(self@),
    {
        match self {
            JobStatus::Pending => false,
            JobStatus::Running => false,
            JobStatus::Exited { .. } => true,
            JobStatus::Killed => true,
            JobStatus::Failed { .. } => true,
        }
    }
}

/// The wire form of a status.
pub open spec fn to_wire_status(s: JobStatus) -> JobStatusProto {
    match s {
        JobStatus::Pending => JobStatusProto::Pending,
        JobStatus::Running => JobStatusProto::Running,
        JobStatus::Exited { code } => JobStatusProto::Exited { code },
        JobStatus::Killed => JobStatusProto::Killed,
        JobStatus::Failed { reason } => JobStatusProto::Failed { reason },
    }
}

/// The status of a wire form.
pub open spec fn from_wire_status(p: JobStatusProto) -> JobStatus {
    match p {
        JobStatusProto::Pending => JobStatus::Pending,
        JobStatusProto::Running => JobStatus::Running,
        JobStatusProto::Exited { code } => JobStatus::Exited { code },
        JobStatusProto::Killed => JobStatus::Killed,
        JobStatusProto::Failed { reason } => JobStatus::Failed { reason },
    }
}

impl vstd::std_specs::convert::FromSpecImpl<JobStatus> for JobStatusProto {
    open spec fn obeys_from_spec() -> bool {
        true
    }

    open spec fn from_spec(s: JobStatus) -> JobStatusProto {
        to_wire_status(s)
    }
}

impl From<JobStatus> for JobStatusProto {
    fn from(s: JobStatus) -> (r: Self) {
        match s {
            JobStatus::Pending => JobStatusProto::Pending,
            JobStatus::Running => JobStatusProto::Running,
            JobStatus::Exited { code } => JobStatusProto::Exited { code },
            JobStatus::Killed => JobStatusProto::Killed,
            JobStatus::Failed { reason } => JobStatusProto::Failed { reason },
        }
    }
}

impl vstd::std_specs::convert::FromSpecImpl<JobStatusProto> for JobStatus {
    open spec fn obeys_from_spec() -> bool {
        true
    }

    open spec fn from_spec(p: JobStatusProto) -> JobStatus {
        from_wire_status(p)
    }
}

impl From<JobStatusProto> for JobStatus {
    fn from(p: JobStatusProto) -> (r: Self) {
        match p {
            JobStatusProto::Pending => JobStatus::Pending,
            JobStatusProto::Running => JobStatus::Running,
            JobStatusProto::Exited { code } => JobStatus::Exited { code },
            JobStatusProto::Killed => JobStatus::Killed,
            JobStatusProto::Failed { reason } => JobStatus::Failed { reason },
        }
    }
}

/// The conversion to the wire form loses nothing, in either direction.
pub proof fn wire_conversion_is_lossless(s: JobStatus, p: JobStatusProto)
    ensures
        from_wire_status(to_wire_status(s)) == s,
        to_wire_status(from_wire_status(p)) == p,
        to_wire_status(s)@ == s@,
        from_wire_status(p)@ == p@,
{
}

/// A job is over exactly where it neither waits to start nor runs.
pub proof fn job_is_over_unless_pending_or_running(status: StatusView)
    ensures
        terminal(status) <==> status != StatusView::Pending && status != StatusView::Running,
{
}

/// A status is seen as what it is, with its code and its reason, and it crosses
/// the wire in both directions without being taken for another.
pub proof fn statuses_cross_the_wire_unchanged(s: JobStatus, p: JobStatusProto)
    ensures
        s is Pending <==> s@ == StatusView::Pending,
        s is Running <==> s@ == StatusView::Running,
        s is Killed <==> s@ == StatusView::Killed,
        s matches JobStatus::Exited { code } ==> s@ == (StatusView::Exited { code }),
        s matches JobStatus::Failed { reason } ==> s@ == (StatusView::Failed { reason: reason@ }),
        p is Pending <==> p@ == StatusView::Pending,
        p is Running <==> p@ == StatusView::Running,
        p is Killed <==> p@ == StatusView::Killed,
        p matches JobStatusProto::Exited { code } ==> p@ == (StatusView::Exited { code }),
        p matches JobStatusProto::Failed { reason } ==> p@ == (StatusView::Failed {
            reason: reason@,
        }),
        to_wire_status(s)@ == s@,
        from_wire_status(p)@ == p@,
{
}

} // verus!
