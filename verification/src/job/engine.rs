//! The job engine: which jobs exist, what their logs hold, and how they start
//! and end. Spawning, reading pipes and waiting is left to the caller, which
//! hands in what came of it.

use vstd::prelude::*;
use vstd::string::*;
use vstd::utf8::encode_utf8;

use crate::error::{Error, ErrorView};
use crate::job::log::{
    appended, byte_total, placed, AppendLogEvent, ChunkView, JobReplayLog, LogBuffer, LogEventView,
    LogStream,
    DEFAULT_LOG_BYTE_CAP,
};
use crate::job::plan::{
    launch_outcome, option_text, plan_work, prepare_launch, work_planned, Launch, LaunchView,
    StartPlan, WorkView,
};
use crate::job::status::{JobStatus, StatusView};
use crate::job::store::{
    ids_of, id_texts, inserting_touches_one_job, with_job, Job, JobIndices, JobStore,
};
use crate::octets::bytes_of;
use crate::proto::capability::grant_texts;
use crate::proto::ids::{JobId, SessionId};
use crate::proto::job::{
    JobCancelRequest, JobCancelResponse, JobPayload, JobStartRequest, JobStatusProto,
    JobStatusRequest, JobStatusResponse,
};
use crate::provider::Provider;
use crate::registry::ProviderRegistry;
use crate::sandbox::error::{SandboxError, SandboxErrorView};
use crate::session::{
    audit_event_comes_last, audited, auditing_only_appends, only_audited, sessions_kept,
    AuditEventKind, AuditKindView, AuditView, Session, SessionStore,
};
use crate::text::{concat_text, decimal, decimal_is_injective, decimal_text, same_text};
use crate::textmap::TextMap;
use crate::time::Timestamp;

verus! {

/// What came of starting a prepared job.
#[derive(Debug)]
pub enum SpawnOutcome {
    /// The work runs.
    Spawned,
    /// The sandbox policy could not be applied.
    SandboxFailed(SandboxError),
    /// The process, or the runner of a component, could not be started.
    SpawnFailed(String),
}

/// The failure of a start, where it failed.
pub open spec fn spawn_failure(spawned: SpawnOutcome) -> Option<ErrorView> {
    match spawned {
        SpawnOutcome::Spawned => None,
        SpawnOutcome::SandboxFailed(e) => match e@ {
            SandboxErrorView::Unavailable { .. } => Some(
                ErrorView::SandboxUnavailable { source: e@ },
            ),
            SandboxErrorView::Apply { .. } => Some(ErrorView::SandboxApply { source: e@ }),
        },
        SpawnOutcome::SpawnFailed(reason) => Some(ErrorView::JobSpawn { reason: reason@ }),
    }
}

/// The state of an engine.
#[verifier::ext_equal]
pub struct EngineView {
    /// The live sessions.
    pub sessions: Map<Seq<char>, Session>,
    /// The jobs and their index by session.
    pub jobs: JobIndices,
    /// The jobs that can still be cancelled.
    pub cancellable: Set<Seq<char>>,
    /// The number of the next job.
    pub next_id: u64,
    /// The byte cap of the log of a new job.
    pub log_byte_cap: usize,
}

/// The job engine.
pub struct JobEngine<P> {
    /// The live sessions.
    pub sessions: SessionStore,
    /// The jobs.
    pub jobs: JobStore,
    /// The capability providers.
    pub registry: ProviderRegistry<P>,
    /// The number of the next job.
    pub next_id: u64,
    /// The jobs that can still be cancelled.
    pub cancels: TextMap<bool>,
    /// The byte cap of the log of a new job. A job whose output exceeds it is
    /// killed and marked failed.
    pub log_byte_cap: usize,
}

impl<P> View for JobEngine<P> {
    type V = EngineView;

    open spec fn view(&self) -> EngineView {
        EngineView {
            sessions: self.sessions@,
            jobs: self.jobs@,
            cancellable: self.cancels@.dom(),
            next_id: self.next_id,
            log_byte_cap: self.log_byte_cap,
        }
    }
}

/// The id of the job with a number.
pub open spec fn numbered_id(n: nat) -> Seq<char> {
    "j_"@ + decimal(n)
}

/// The number that follows another; after the last one counting starts anew.
pub open spec fn following(n: u64) -> u64 {
    if n == u64::MAX {
        0
    } else {
        (n + 1) as u64
    }
}

/// Whether a job was just started.
pub open spec fn just_started(
    job: Job,
    id: Seq<char>,
    session_id: Seq<char>,
    payload: JobPayload,
    cwd: Seq<char>,
    cap: usize,
    now: Timestamp,
) -> bool {
    &&& job.id@ == id
    &&& job.session_id@ == session_id
    &&& job.payload == payload
    &&& job.cwd@ == cwd
    &&& job.status@ == StatusView::Running
    &&& job.created_at == now
    &&& job.started_at == Some(now)
    &&& job.finished_at is None
    &&& job.log_buffer.log() == Seq::<LogEventView>::empty()
    &&& job.log_buffer.cap() == cap
}

/// Whether an engine changed by exactly the start of one job: the job has the
/// next id, runs, can be cancelled, and its start is on the audit log.
pub open spec fn started(
    before: EngineView,
    after: EngineView,
    session_id: Seq<char>,
    payload: JobPayload,
    cwd: Seq<char>,
    now: Timestamp,
) -> bool {
    let id = numbered_id(before.next_id as nat);
    let job = after.jobs.jobs[id];
    &&& just_started(job, id, session_id, payload, cwd, before.log_byte_cap, now)
    &&& after.jobs == with_job(before.jobs, job)
    &&& after.cancellable == before.cancellable.insert(id)
    &&& after.next_id == following(before.next_id)
    &&& after.log_byte_cap == before.log_byte_cap
    &&& audited(
        before.sessions,
        after.sessions,
        session_id,
        AuditView { timestamp: now, kind: AuditKindView::JobStarted { job_id: id } },
    )
}

/// Whether two jobs differ at most in their logs.
pub open spec fn same_but_job_log(a: Job, b: Job) -> bool {
    &&& a.id == b.id
    &&& a.session_id == b.session_id
    &&& a.payload == b.payload
    &&& a.cwd == b.cwd
    &&& a.status == b.status
    &&& a.created_at == b.created_at
    &&& a.started_at == b.started_at
    &&& a.finished_at == b.finished_at
    &&& a.log_buffer.cap() == b.log_buffer.cap()
    &&& a.log_buffer.signal() == b.log_buffer.signal()
}

/// The engine state with one job replaced.
pub open spec fn with_changed_job(before: EngineView, id: Seq<char>, job: Job) -> EngineView {
    EngineView {
        jobs: JobIndices {
            jobs: before.jobs.jobs.insert(id, job),
            by_session: before.jobs.by_session,
        },
        ..before
    }
}

/// What happens to the state when output of a job arrives: it is put last in
/// the job's log where that has room for it, and otherwise nothing changes.
pub open spec fn output_logged(
    before: EngineView,
    after: EngineView,
    id: Seq<char>,
    chunk: ChunkView,
    r: Result<(), Error>,
) -> bool {
    if before.jobs.jobs.contains_key(id) {
        let was = before.jobs.jobs[id];
        let job = after.jobs.jobs[id];
        &&& after == with_changed_job(before, id, job)
        &&& same_but_job_log(was, job)
        &&& appended(
            was.log_buffer.log(),
            job.log_buffer.log(),
            was.log_buffer.cap(),
            chunk,
            match r {
                Ok(_) => Ok(was.log_buffer.log().len() as u64),
                Err(e) => Err(e),
            },
        )
    } else {
        &&& after == before
        &&& r matches Err(e) && e@ == ErrorView::JobNotFound(id)
    }
}

/// The bytes of a text that is logged as output: its UTF-8 form, with a line
/// feed at the end where it has none.
pub open spec fn line_bytes(text: Seq<char>) -> Seq<u8> {
    let bytes = encode_utf8(text);
    if bytes.len() > 0 && bytes.last() == 10 {
        bytes
    } else {
        bytes.push(10)
    }
}

/// Whether the state changed by exactly the end of one job.
pub open spec fn finished(
    before: EngineView,
    after: EngineView,
    id: Seq<char>,
    session_id: Seq<char>,
    status: StatusView,
    now: Timestamp,
) -> bool {
    &&& if before.jobs.jobs.contains_key(id) {
        let was = before.jobs.jobs[id];
        let job = after.jobs.jobs[id];
        &&& after.jobs == with_changed_job(before, id, job).jobs
        &&& job.id == was.id
        &&& job.session_id == was.session_id
        &&& job.payload == was.payload
        &&& job.cwd == was.cwd
        &&& job.created_at == was.created_at
        &&& job.started_at == was.started_at
        &&& job.log_buffer == was.log_buffer
        &&& job.status@ == status
        &&& job.finished_at == Some(now)
    } else {
        after.jobs == before.jobs
    }
    &&& after.cancellable == before.cancellable.remove(id)
    &&& after.next_id == before.next_id
    &&& after.log_byte_cap == before.log_byte_cap
    &&& audited(
        before.sessions,
        after.sessions,
        session_id,
        AuditView { timestamp: now, kind: AuditKindView::JobFinished { job_id: id, status } },
    )
}

/// Whether a session owns a job.
pub open spec fn owns(state: EngineView, session_id: Seq<char>, job_id: Seq<char>) -> bool {
    state.jobs.jobs.contains_key(job_id) && state.jobs.jobs[job_id].session_id@ == session_id
}

/// Whether `r` is what a cancellation gives, and the state changed by exactly
/// that: the job of the caller can then no longer be cancelled, and the answer says
/// whether it could.
pub open spec fn cancel_settled(
    before: EngineView,
    after: EngineView,
    req: JobCancelRequest,
    r: Result<JobCancelResponse, Error>,
) -> bool {
    if owns(before, req.session_id@, req.job_id@) {
        &&& r matches Ok(response) && response.ok == before.cancellable.contains(req.job_id@)
        &&& after == (EngineView {
            cancellable: before.cancellable.remove(req.job_id@),
            ..before
        })
    } else {
        &&& r matches Err(e) && e@ == ErrorView::JobNotFound(req.job_id@)
        &&& after == before
    }
}

/// Whether `r` is what a look at a job gives: the status and the number of logged
/// events of a job of the caller.
pub open spec fn status_settled(
    state: EngineView,
    req: JobStatusRequest,
    r: Result<JobStatusResponse, Error>,
) -> bool {
    match r {
        Ok(response) => {
            let job = state.jobs.jobs[req.job_id@];
            &&& owns(state, req.session_id@, req.job_id@)
            &&& response.job_id@ == req.job_id@
            &&& response.status@ == job.status@
            &&& response.seq == job.log_buffer.log().len()
        },
        Err(e) => !owns(state, req.session_id@, req.job_id@) && e@ == ErrorView::JobNotFound(
            req.job_id@,
        ),
    }
}

/// The jobs of a list that can be cancelled, each once and in order.
pub open spec fn signalled(ids: Seq<Seq<char>>, cancellable: Set<Seq<char>>) -> Seq<Seq<char>>
    decreases ids.len(),
{
    if ids.len() == 0 {
        Seq::empty()
    } else {
        let before = signalled(ids.drop_last(), cancellable);
        if cancellable.contains(ids.last()) && !ids.drop_last().contains(ids.last()) {
            before.push(ids.last())
        } else {
            before
        }
    }
}

/// The jobs that can still be cancelled once those of a list are signalled.
pub open spec fn still_cancellable(ids: Seq<Seq<char>>, cancellable: Set<Seq<char>>) -> Set<
    Seq<char>,
> {
    cancellable.difference(Set::new(|id: Seq<char>| ids.contains(id)))
}

/// Whether `r` is what a start gives, and the state changed by exactly that: the
/// request is refused by the first of these that fails, the session, the
/// payload, the working directory, the requested grants, the start itself; a
/// refused request leaves the state as it was.
pub open spec fn start_settled<P: Provider>(
    registry: ProviderRegistry<P>,
    before: EngineView,
    after: EngineView,
    req: JobStartRequest,
    canonical: Option<Seq<char>>,
    spawned: SpawnOutcome,
    now: Timestamp,
    r: Result<Seq<char>, ErrorView>,
) -> bool {
    if !before.sessions.contains_key(req.session_id@) {
        &&& r == Err::<Seq<char>, ErrorView>(ErrorView::SessionNotFound(req.session_id@))
        &&& after == before
    } else {
        let session = before.sessions[req.session_id@];
        exists|planned: Result<WorkView, ErrorView>| #[trigger]
            work_planned(req.payload, session.capabilities@, registry, planned) && match planned {
                Err(refusal) => {
                    &&& r == Err::<Seq<char>, ErrorView>(refusal)
                    &&& after == before
                },
                Ok(work) => match launch_outcome(
                    work,
                    session.tier,
                    session.workspace@,
                    session.capabilities@,
                    option_text(req.cwd),
                    canonical,
                    grant_texts(req.capabilities@),
                ) {
                    Err(refusal) => {
                        &&& r == Err::<Seq<char>, ErrorView>(refusal)
                        &&& after == before
                    },
                    Ok(launch) => match spawn_failure(spawned) {
                        Some(failure) => {
                            &&& r == Err::<Seq<char>, ErrorView>(failure)
                            &&& after == before
                        },
                        None => {
                            &&& r == Ok::<Seq<char>, ErrorView>(numbered_id(before.next_id as nat))
                            &&& started(
                                before,
                                after,
                                req.session_id@,
                                req.payload,
                                launch_cwd(launch),
                                now,
                            )
                        },
                    },
                },
            }
    }
}

impl<P: Provider> JobEngine<P> {
    /// What holds of every engine: its stores are well-formed and so is the log
    /// of every job.
    pub open spec fn wf(&self) -> bool {
        &&& self.sessions.wf()
        &&& self.jobs.wf()
        &&& self.registry.wf()
        &&& self.cancels.wf()
        &&& forall|id: Seq<char>| #[trigger]
            self.jobs@.jobs.contains_key(id) ==> self.jobs@.jobs[id].log_buffer.wf()
    }

    /// Create an engine over the given stores and registry. Job ids begin at
    /// `j_1`, no job can be cancelled yet, and the byte cap is the default.
    pub fn new(sessions: SessionStore, jobs: JobStore, registry: ProviderRegistry<P>) -> (r: Self)
        requires
            sessions.wf(),
            jobs.wf(),
            registry.wf(),
            forall|id: Seq<char>| #[trigger]
                jobs@.jobs.contains_key(id) ==> jobs@.jobs[id].log_buffer.wf(),
        ensures
            r.wf(),
            r@ == (EngineView {
                sessions: sessions@,
                jobs: jobs@,
                cancellable: Set::empty(),
                next_id: 1,
                log_byte_cap: DEFAULT_LOG_BYTE_CAP,
            }),
            r.registry == registry,
    {
        let r = JobEngine {
            sessions,
            jobs,
            registry,
            next_id: 1,
            cancels: TextMap::new(),
            log_byte_cap: DEFAULT_LOG_BYTE_CAP,
        };
        assert(r@.cancellable =~= Set::<Seq<char>>::empty());
        r
    }

    /// Override the byte cap of the logs of new jobs.
    pub fn with_log_byte_cap(self, cap: usize) -> (r: Self)
        requires
            self.wf(),
        ensures
            r.wf(),
            r@ == (EngineView { log_byte_cap: cap, ..self@ }),
            r.registry == self.registry,
    {
        let mut engine = self;
        engine.log_byte_cap = cap;
        engine
    }

    /// Borrow the job store.
    pub fn jobs(&self) -> (r: &JobStore)
        ensures
            *r == self.jobs,
    {
        &self.jobs
    }

    /// Allocate the next job id.
    pub fn next_job_id(&mut self) -> (r: JobId)
        requires
            old(self).wf(),
        ensures
            final(self).wf(),
            r@ == numbered_id(old(self)@.next_id as nat),
            final(self)@ == (EngineView { next_id: following(old(self)@.next_id), ..old(self)@ }),
            final(self).registry == old(self).registry,
    {
        let n: u64 = self.next_id;
        let digits = decimal_text(n);
        self.next_id = if n == u64::MAX {
            0
        } else {
            n + 1
        };
        JobId(concat_text("j_", digits.as_str()))
    }

    /// Plan a start: find the session and decide what its payload runs.
    pub fn plan_start(&self, req: &JobStartRequest) -> (r: Result<StartPlan, Error>)
        requires
            self.wf(),
        ensures
            if self@.sessions.contains_key(req.session_id@) {
                let session = self@.sessions[req.session_id@];
                match r {
                    Ok(plan) => {
                        &&& work_planned(
                            req.payload,
                            session.capabilities@,
                            self.registry,
                            Ok(plan.work@),
                        )
                        &&& plan.workspace == session.workspace
                        &&& plan.capabilities@ == session.capabilities@
                        &&& plan.tier == session.tier
                    },
                    Err(e) => work_planned(
                        req.payload,
                        session.capabilities@,
                        self.registry,
                        Err(e@),
                    ),
                }
            } else {
                r matches Err(e) && e@ == ErrorView::SessionNotFound(req.session_id@)
            },
    {
        match self.sessions.get(&req.session_id) {
            None => Err(Error::SessionNotFound(req.session_id.clone())),
            Some(session) => match plan_work(&req.payload, &session.capabilities, &self.registry) {
                Err(e) => Err(e),
                Ok(work) => Ok(
                    StartPlan {
                        work,
                        workspace: session.workspace.clone(),
                        capabilities: session.capabilities.clone(),
                        tier: session.tier,
                    },
                ),
            },
        }
    }

    fn insert_running_job(
        &mut self,
        session_id: &SessionId,
        payload: &JobPayload,
        cwd: String,
        now: Timestamp,
    ) -> (r: JobId)
        requires
            old(self).wf(),
        ensures
            final(self).wf(),
            final(self).registry == old(self).registry,
            r@ == numbered_id(old(self)@.next_id as nat),
            just_started(
                final(self)@.jobs.jobs[r@],
                r@,
                session_id@,
                *payload,
                cwd@,
                old(self)@.log_byte_cap,
                now,
            ),
            final(self)@ == (EngineView {
                jobs: with_job(old(self)@.jobs, final(self)@.jobs.jobs[r@]),
                next_id: following(old(self)@.next_id),
                ..old(self)@
            }),
    {
        let id = self.next_job_id();
        let mut job = Job::new(id.clone(), session_id.clone(), payload.clone(), cwd, now);
        job.log_buffer = LogBuffer::with_cap(self.log_byte_cap);
        job.status = JobStatus::Running;
        job.started_at = Some(now);
        self.jobs.insert(job);
        id
    }

    /// Record what came of starting a prepared job: a job exists exactly where
    /// its work runs.
    pub fn confirm_start(
        &mut self,
        session_id: &SessionId,
        payload: &JobPayload,
        cwd: String,
        spawned: SpawnOutcome,
        now: Timestamp,
    ) -> (r: Result<JobId, Error>)
        requires
            old(self).wf(),
        ensures
            final(self).wf(),
            final(self).registry == old(self).registry,
            match spawn_failure(spawned) {
                Some(failure) => {
                    &&& r matches Err(e) && e@ == failure
                    &&& final(self)@ == old(self)@
                },
                None => {
                    &&& r matches Ok(id) && id@ == numbered_id(old(self)@.next_id as nat)
                    &&& started(old(self)@, final(self)@, session_id@, *payload, cwd@, now)
                },
            },
    {
        match spawned {
            SpawnOutcome::SpawnFailed(reason) => Err(Error::JobSpawn { reason }),
            SpawnOutcome::SandboxFailed(source) => match source {
                SandboxError::Unavailable { .. } => Err(Error::SandboxUnavailable { source }),
                SandboxError::Apply { .. } => Err(Error::SandboxApply { source }),
            },
            SpawnOutcome::Spawned => {
                let id = self.insert_running_job(session_id, payload, cwd, now);
                let ghost cancels_before = self.cancels@;
                let _ = self.cancels.insert(id.0.clone(), true);
                assert(self.cancels@.dom() =~= cancels_before.dom().insert(id@));
                self.sessions.record(
                    session_id,
                    AuditEventKind::JobStarted { job_id: id.clone() },
                    now,
                );
                Ok(id)
            },
        }
    }

    /// Start a job, given what resolving its working directory gave and what
    /// came of starting it.
    ///
    /// The request is refused by the first of these that fails: the session,
    /// the payload, the working directory, the requested grants, the start. A
    /// refused request leaves the engine as it was.
    pub fn start(
        &mut self,
        req: &JobStartRequest,
        canonical: Option<String>,
        spawned: SpawnOutcome,
        now: Timestamp,
    ) -> (r: Result<JobId, Error>)
        requires
            old(self).wf(),
        ensures
            final(self).wf(),
            final(self).registry == old(self).registry,
            start_settled(
                old(self).registry,
                old(self)@,
                final(self)@,
                *req,
                option_text(canonical),
                spawned,
                now,
                match r {
                    Ok(id) => Ok(id@),
                    Err(e) => Err(e@),
                },
            ),
    {
        let plan = match self.plan_start(req) {
            Ok(plan) => plan,
            Err(e) => {
                assert(self@.sessions.contains_key(req.session_id@) ==> work_planned(
                    req.payload,
                    self@.sessions[req.session_id@].capabilities@,
                    self.registry,
                    Err(e@),
                ));
                return Err(e);
            },
        };
        let ghost work = plan.work@;
        assert(work_planned(
            req.payload,
            self@.sessions[req.session_id@].capabilities@,
            self.registry,
            Ok(work),
        ));
        let launch = match prepare_launch(plan, &req.cwd, canonical, &req.capabilities) {
            Ok(launch) => launch,
            Err(e) => {
                return Err(e);
            },
        };
        let cwd = match launch {
            Launch::Process { cwd, .. } => cwd,
            Launch::Code { cwd, .. } => cwd,
        };
        self.confirm_start(&req.session_id, &req.payload, cwd, spawned, now)
    }

    /// Put a chunk of output into the log of a job.
    pub fn push_log(
        &mut self,
        job_id: &JobId,
        stream: LogStream,
        data: bytes::Bytes,
        now: Timestamp,
    ) -> (r: Result<(), Error>)
        requires
            old(self).wf(),
        ensures
            final(self).wf(),
            final(self).registry == old(self).registry,
            output_logged(
                old(self)@,
                final(self)@,
                job_id@,
                (ChunkView { stream, data: bytes_of(data), timestamp: now }),
                r,
            ),
    {
        let ghost before = self@;
        proof {
            self.jobs.jobs_stand_under_their_ids();
        }
        let r = match self.jobs.get_mut(job_id) {
            None => Err(Error::JobNotFound(job_id.clone())),
            Some(job) => match job.log_buffer.append(
                AppendLogEvent { stream, data, timestamp: now },
            ) {
                Ok(_) => Ok(()),
                Err(e) => Err(e),
            },
        };
        r
    }

    /// Put a text into the log of a job, as a line.
    pub fn push_text_result(
        &mut self,
        job_id: &JobId,
        stream: LogStream,
        text: &str,
        now: Timestamp,
    ) -> (r: Result<(), Error>)
        requires
            old(self).wf(),
        ensures
            final(self).wf(),
            final(self).registry == old(self).registry,
            output_logged(
                old(self)@,
                final(self)@,
                job_id@,
                (ChunkView { stream, data: line_bytes(text@), timestamp: now }),
                r,
            ),
    {
        let mut bytes = vstd::slice::slice_to_vec(text.as_bytes());
        if bytes.len() == 0 || bytes[bytes.len() - 1] != 10 {
            bytes.push(10);
        }
        assert(bytes@ =~= line_bytes(text@));
        let data = bytes::Bytes::copy_from_slice(bytes.as_slice());
        self.push_log(job_id, stream, data, now)
    }

    /// Record the end of a job.
    pub fn finish_job(
        &mut self,
        job_id: &JobId,
        session_id: &SessionId,
        status: JobStatus,
        now: Timestamp,
    )
        requires
            old(self).wf(),
        ensures
            final(self).wf(),
            final(self).registry == old(self).registry,
            finished(old(self)@, final(self)@, job_id@, session_id@, status@, now),
    {
        let wire: JobStatusProto = JobStatusProto::from(status.clone());
        match self.jobs.get_mut(job_id) {
            None => {},
            Some(job) => {
                job.status = status;
                job.finished_at = Some(now);
                job.log_buffer.wake();
            },
        }
        self.sessions.record(
            session_id,
            AuditEventKind::JobFinished { job_id: job_id.clone(), status: wire },
            now,
        );
        let ghost cancels_before = self.cancels@;
        let _ = self.cancels.remove(job_id.as_str());
        assert(self.cancels@.dom() =~= cancels_before.dom().remove(job_id@));
    }

    /// Take a job out of those that can be cancelled; the caller signals it.
    fn kill_job(&mut self, job_id: &JobId) -> (r: Result<(), Error>)
        requires
            old(self).wf(),
        ensures
            final(self).wf(),
            final(self).registry == old(self).registry,
            final(self)@ == (EngineView {
                cancellable: old(self)@.cancellable.remove(job_id@),
                ..old(self)@
            }),
            match r {
                Ok(_) => old(self)@.cancellable.contains(job_id@),
                Err(e) => !old(self)@.cancellable.contains(job_id@) && e@
                    == ErrorView::JobNotFound(job_id@),
            },
    {
        let ghost cancels_before = self.cancels@;
        let removed = self.cancels.remove(job_id.as_str());
        assert(self.cancels@.dom() =~= cancels_before.dom().remove(job_id@));
        match removed {
            Some(_) => Ok(()),
            None => Err(Error::JobNotFound(job_id.clone())),
        }
    }

    /// Find a job that a session owns. A job of another session is answered as
    /// one that does not exist.
    pub fn lookup_owned(&self, session_id: &SessionId, job_id: &JobId) -> (r: Result<&Job, Error>)
        requires
            self.wf(),
        ensures
            match r {
                Ok(job) => owns(self@, session_id@, job_id@) && *job == self@.jobs.jobs[job_id@],
                Err(e) => !owns(self@, session_id@, job_id@) && e@ == ErrorView::JobNotFound(
                    job_id@,
                ),
            },
    {
        match self.jobs.get(job_id) {
            None => Err(Error::JobNotFound(job_id.clone())),
            Some(job) => {
                if same_text(job.session_id.as_str(), session_id.as_str()) {
                    Ok(job)
                } else {
                    Err(Error::JobNotFound(job_id.clone()))
                }
            },
        }
    }

    /// Cancel a job that the caller owns. `ok` says whether there was something
    /// to cancel: then the caller signals the job.
    pub fn cancel(&mut self, req: &JobCancelRequest) -> (r: Result<JobCancelResponse, Error>)
        requires
            old(self).wf(),
        ensures
            final(self).wf(),
            final(self).registry == old(self).registry,
            cancel_settled(old(self)@, final(self)@, *req, r),
    {
        match self.lookup_owned(&req.session_id, &req.job_id) {
            Err(e) => {
                return Err(e);
            },
            Ok(_) => {},
        }
        match self.kill_job(&req.job_id) {
            Ok(_) => Ok(JobCancelResponse { ok: true }),
            Err(_) => Ok(JobCancelResponse { ok: false }),
        }
    }

    /// Cancel all jobs of a session that can be cancelled, before the session
    /// is closed. The jobs that the caller has to signal come back.
    pub fn cancel_for_session(&mut self, session_id: &SessionId) -> (r: Vec<JobId>)
        requires
            old(self).wf(),
        ensures
            final(self).wf(),
            final(self).registry == old(self).registry,
            id_texts(r@) == signalled(
                ids_of(old(self)@.jobs, session_id@),
                old(self)@.cancellable,
            ),
            final(self)@ == (EngineView {
                cancellable: still_cancellable(
                    ids_of(old(self)@.jobs, session_id@),
                    old(self)@.cancellable,
                ),
                ..old(self)@
            }),
    {
        let ghost before = self@;
        let ids = self.jobs.list_for_session(session_id);
        let ghost all = id_texts(ids@);
        let mut killed: Vec<JobId> = Vec::new();
        proof {
            assert(all.take(0) =~= Seq::<Seq<char>>::empty());
            assert(id_texts(killed@) =~= Seq::<Seq<char>>::empty());
            assert(self@.cancellable =~= still_cancellable(all.take(0), before.cancellable));
        }
        let mut i: usize = 0;
        while i < ids.len()
            invariant
                self.wf(),
                self.registry == old(self).registry,
                i <= ids@.len(),
                all == id_texts(ids@),
                id_texts(killed@) == signalled(all.take(i as int), before.cancellable),
                self@ == (EngineView {
                    cancellable: still_cancellable(all.take(i as int), before.cancellable),
                    ..before
                }),
            decreases ids@.len() - i,
        {
            let ghost killed_before = id_texts(killed@);
            let ghost seen = all.take(i as int);
            let ghost now = all.take(i + 1);
            proof {
                assert(now.drop_last() =~= seen);
                assert(now.last() == ids@[i as int]@);
                assert forall|id: Seq<char>| now.contains(id) <==> seen.contains(id) || id
                    == ids@[i as int]@ by {
                    if seen.contains(id) {
                        let k = choose|k: int| 0 <= k < seen.len() && seen[k] == id;
                        assert(now[k] == id);
                    }
                    if now.contains(id) && id != ids@[i as int]@ {
                        let k = choose|k: int| 0 <= k < now.len() && now[k] == id;
                        assert(seen[k] == id);
                    }
                    assert(now[i as int] == ids@[i as int]@);
                }
            }
            if let Ok(_) = self.kill_job(&ids[i]) {
                killed.push(ids[i].clone());
                assert(id_texts(killed@) =~= killed_before.push(ids@[i as int]@));
            }
            assert(self@.cancellable =~= still_cancellable(now, before.cancellable));
            i = i + 1;
        }
        assert(all.take(ids@.len() as int) =~= all);
        killed
    }

    /// The status and number of logged events of a job that the caller owns.
    pub fn status(&self, req: &JobStatusRequest) -> (r: Result<JobStatusResponse, Error>)
        requires
            self.wf(),
        ensures
            status_settled(self@, *req, r),
    {
        match self.lookup_owned(&req.session_id, &req.job_id) {
            Err(e) => Err(e),
            Ok(job) => Ok(
                JobStatusResponse {
                    job_id: req.job_id.clone(),
                    status: JobStatusProto::from(job.status.clone()),
                    seq: job.log_buffer.len() as u64,
                },
            ),
        }
    }
}

/// The working directory of a launch.
pub open spec fn launch_cwd(launch: LaunchView) -> Seq<char> {
    match launch {
        LaunchView::Process { cwd, .. } => cwd,
        LaunchView::Code { cwd, .. } => cwd,
    }
}

/// Jobs with different numbers have different ids.
pub proof fn job_ids_are_distinct(a: nat, b: nat)
    requires
        a != b,
    ensures
        numbered_id(a) != numbered_id(b),
{
    if numbered_id(a) == numbered_id(b) {
        assert(decimal(a) =~= numbered_id(a).skip("j_"@.len() as int));
        assert(decimal(b) =~= numbered_id(b).skip("j_"@.len() as int));
        decimal_is_injective(a, b);
    }
}

/// Starting a job, or refusing to, keeps every session with its workspace, tier,
/// grants and token, and only adds to its audit log.
pub proof fn starting_keeps_every_session<P: Provider>(
    registry: ProviderRegistry<P>,
    before: EngineView,
    after: EngineView,
    req: JobStartRequest,
    canonical: Option<Seq<char>>,
    spawned: SpawnOutcome,
    now: Timestamp,
    r: Result<Seq<char>, ErrorView>,
)
    requires
        start_settled(registry, before, after, req, canonical, spawned, now, r),
    ensures
        sessions_kept(before.sessions, after.sessions),
{
    if r is Ok {
        let id = numbered_id(before.next_id as nat);
        auditing_only_appends(
            before.sessions,
            after.sessions,
            req.session_id@,
            AuditView { timestamp: now, kind: AuditKindView::JobStarted { job_id: id } },
        );
    } else {
        assert forall|id: Seq<char>| before.sessions.contains_key(id) implies only_audited(
            before.sessions[id],
            #[trigger] after.sessions[id],
        ) by {
            let log = before.sessions[id].audit_log();
            assert(log.subrange(0, log.len() as int) =~= log);
        }
    }
}

/// The end of a job keeps every session with its workspace, tier, grants and
/// token, and only adds to its audit log.
pub proof fn ending_keeps_every_session(
    before: EngineView,
    after: EngineView,
    id: Seq<char>,
    session_id: Seq<char>,
    status: StatusView,
    now: Timestamp,
)
    requires
        finished(before, after, id, session_id, status, now),
    ensures
        sessions_kept(before.sessions, after.sessions),
{
    auditing_only_appends(
        before.sessions,
        after.sessions,
        session_id,
        AuditView { timestamp: now, kind: AuditKindView::JobFinished { job_id: id, status } },
    );
}

/// Output that was logged stays logged: more output, or output that the log has
/// no room for, keeps every job's log as a beginning of what it then is.
pub proof fn logging_only_appends(
    before: EngineView,
    after: EngineView,
    id: Seq<char>,
    chunk: ChunkView,
    r: Result<(), Error>,
    job_id: Seq<char>,
)
    requires
        output_logged(before, after, id, chunk, r),
        before.jobs.jobs.contains_key(job_id),
    ensures
        after.jobs.jobs.contains_key(job_id),
        before.jobs.jobs[job_id].log_buffer.log().is_prefix_of(
            after.jobs.jobs[job_id].log_buffer.log(),
        ),
        job_id != id ==> after.jobs.jobs[job_id] == before.jobs.jobs[job_id],
{
    let log = before.jobs.jobs[job_id].log_buffer.log();
    assert(log.subrange(0, log.len() as int) =~= log);
    if job_id == id {
        assert(log.push(placed(chunk, log.len() as int)).subrange(0, log.len() as int) =~= log);
    }
}

/// The end of a job keeps its log, and keeps the other jobs as they are.
pub proof fn ending_keeps_the_log(
    before: EngineView,
    after: EngineView,
    id: Seq<char>,
    session_id: Seq<char>,
    status: StatusView,
    now: Timestamp,
    job_id: Seq<char>,
)
    requires
        finished(before, after, id, session_id, status, now),
        before.jobs.jobs.contains_key(job_id),
    ensures
        after.jobs.jobs.contains_key(job_id),
        after.jobs.jobs[job_id].log_buffer == before.jobs.jobs[job_id].log_buffer,
        job_id != id ==> after.jobs.jobs[job_id] == before.jobs.jobs[job_id],
{
}

/// A job exists exactly where it started: then it runs, belongs to the session
/// and can be cancelled. A refused start changes nothing.
pub proof fn job_exists_exactly_where_it_started<P: Provider>(
    registry: ProviderRegistry<P>,
    before: EngineView,
    after: EngineView,
    req: JobStartRequest,
    canonical: Option<Seq<char>>,
    spawned: SpawnOutcome,
    now: Timestamp,
    r: Result<Seq<char>, ErrorView>,
)
    requires
        start_settled(registry, before, after, req, canonical, spawned, now, r),
    ensures
        match r {
            Ok(id) => {
                &&& owns(after, req.session_id@, id)
                &&& after.jobs.jobs[id].status@ == StatusView::Running
                &&& after.cancellable.contains(id)
            },
            Err(_) => after == before,
        },
{
}

/// Cancelling the jobs of a list signals each of them that can be cancelled, no
/// other and none twice, and leaves none of them to be cancelled.
pub proof fn every_cancellable_job_is_signalled_once(
    ids: Seq<Seq<char>>,
    cancellable: Set<Seq<char>>,
)
    ensures
        signalled(ids, cancellable).no_duplicates(),
        forall|id: Seq<char>| #[trigger]
            signalled(ids, cancellable).contains(id) <==> ids.contains(id) && cancellable.contains(
                id,
            ),
        forall|id: Seq<char>| #[trigger]
            still_cancellable(ids, cancellable).contains(id) <==> cancellable.contains(id)
                && !ids.contains(id),
    decreases ids.len(),
{
    if ids.len() > 0 {
        let fewer = ids.drop_last();
        let last = ids.last();
        let before = signalled(fewer, cancellable);
        let all = signalled(ids, cancellable);
        every_cancellable_job_is_signalled_once(fewer, cancellable);
        assert forall|id: Seq<char>| ids.contains(id) <==> fewer.contains(id) || id == last by {
            if fewer.contains(id) {
                let k = choose|k: int| 0 <= k < fewer.len() && fewer[k] == id;
                assert(ids[k] == id);
            }
            if ids.contains(id) && id != last {
                let k = choose|k: int| 0 <= k < ids.len() && ids[k] == id;
                assert(fewer[k] == id);
            }
            assert(ids[ids.len() - 1] == last);
        }
        assert forall|id: Seq<char>| #[trigger] all.contains(id) <==> ids.contains(id)
            && cancellable.contains(id) by {
            assert(before.contains(id) <==> fewer.contains(id) && cancellable.contains(id));
            if all != before {
                assert(all == before.push(last));
                assert(all[before.len() as int] == last);
                if before.contains(id) {
                    let k = choose|k: int| 0 <= k < before.len() && before[k] == id;
                    assert(all[k] == id);
                }
            }
        }
        assert(before.contains(last) ==> fewer.contains(last));
    }
}

/// A job that starts runs the payload that was asked for, in the directory that
/// was resolved, for the session that asked; it has the next number, which is not
/// given again before all others were, its log is empty, and its start is the last
/// thing on the audit log of its session. Every other job stays as it was.
pub proof fn started_job_is_the_one_asked_for(
    before: EngineView,
    after: EngineView,
    session_id: Seq<char>,
    payload: JobPayload,
    cwd: Seq<char>,
    now: Timestamp,
    other: Seq<char>,
)
    requires
        started(before, after, session_id, payload, cwd, now),
    ensures
        ({
            let id = "j_"@ + decimal(before.next_id as nat);
            let job = after.jobs.jobs[id];
            &&& after.jobs.jobs.contains_key(id)
            &&& job.id@ == id
            &&& job.session_id@ == session_id
            &&& job.payload == payload
            &&& job.cwd@ == cwd
            &&& job.status@ == StatusView::Running
            &&& job.created_at == now
            &&& job.started_at == Some(now)
            &&& job.finished_at is None
            &&& job.log_buffer.log().len() == 0
            &&& job.log_buffer.cap() == before.log_byte_cap
            &&& ids_of(after.jobs, session_id).last() == id
            &&& after.cancellable.contains(id)
            &&& other != id ==> {
                &&& after.jobs.jobs.contains_key(other) == before.jobs.jobs.contains_key(other)
                &&& after.jobs.jobs[other] == before.jobs.jobs[other]
                &&& after.cancellable.contains(other) == before.cancellable.contains(other)
            }
            &&& before.sessions.contains_key(session_id) ==> {
                let log = after.sessions[session_id].audit_log();
                &&& log.len() == before.sessions[session_id].audit_log().len() + 1
                &&& log.last().timestamp == now
                &&& log.last().kind == (AuditKindView::JobStarted { job_id: id })
            }
        }),
        after.next_id as int == (before.next_id + 1) % 0x1_0000_0000_0000_0000,
{
    let id = numbered_id(before.next_id as nat);
    inserting_touches_one_job(before.jobs, after.jobs.jobs[id], other, session_id);
    audit_event_comes_last(
        before.sessions,
        after.sessions,
        session_id,
        AuditView { timestamp: now, kind: AuditKindView::JobStarted { job_id: id } },
        session_id,
    );
}

/// A job that ends has the status with which it ended and the time of it, keeps
/// all else, can no longer be cancelled, and its end is on the audit log with that
/// same status.
pub proof fn ended_job_has_its_status(
    before: EngineView,
    after: EngineView,
    id: Seq<char>,
    session_id: Seq<char>,
    status: StatusView,
    now: Timestamp,
    other: Seq<char>,
)
    requires
        finished(before, after, id, session_id, status, now),
    ensures
        before.jobs.jobs.contains_key(id) ==> {
            let was = before.jobs.jobs[id];
            let job = after.jobs.jobs[id];
            &&& job.status@ == status
            &&& job.finished_at == Some(now)
            &&& job.id == was.id
            &&& job.session_id == was.session_id
            &&& job.payload == was.payload
            &&& job.cwd == was.cwd
            &&& job.created_at == was.created_at
            &&& job.started_at == was.started_at
        },
        !after.cancellable.contains(id),
        other != id ==> after.cancellable.contains(other) == before.cancellable.contains(other),
        before.sessions.contains_key(session_id) ==> {
            let log = after.sessions[session_id].audit_log();
            &&& log.len() == before.sessions[session_id].audit_log().len() + 1
            &&& log.last().timestamp == now
            &&& log.last().kind == (AuditKindView::JobFinished { job_id: id, status })
        },
        after.next_id == before.next_id,
        after.log_byte_cap == before.log_byte_cap,
{
    audit_event_comes_last(
        before.sessions,
        after.sessions,
        session_id,
        AuditView { timestamp: now, kind: AuditKindView::JobFinished { job_id: id, status } },
        session_id,
    );
}

/// Output of a job goes to the end of that job's log, byte for byte and marked
/// with its stream and time, exactly where the job exists and its cap leaves room;
/// nothing else of the job changes.
pub proof fn output_goes_to_its_job(
    before: EngineView,
    after: EngineView,
    id: Seq<char>,
    chunk: ChunkView,
    r: Result<(), Error>,
)
    requires
        output_logged(before, after, id, chunk, r),
        before.jobs.jobs.contains_key(id) ==> before.jobs.jobs[id].log_buffer.log().len()
            <= u64::MAX,
    ensures
        r is Ok <==> before.jobs.jobs.contains_key(id) && byte_total(
            before.jobs.jobs[id].log_buffer.log(),
        ) + chunk.data.len() <= before.jobs.jobs[id].log_buffer.cap(),
        r is Ok ==> {
            let was = before.jobs.jobs[id].log_buffer.log();
            let log = after.jobs.jobs[id].log_buffer.log();
            &&& log.len() == was.len() + 1
            &&& log.last().seq == was.len()
            &&& log.last().stream == chunk.stream
            &&& log.last().data == chunk.data
            &&& log.last().timestamp == chunk.timestamp
        },
        r is Err ==> (before.jobs.jobs.contains_key(id) ==> after.jobs.jobs[id].log_buffer.log()
            == before.jobs.jobs[id].log_buffer.log()),
        before.jobs.jobs.contains_key(id) ==> after.jobs.jobs[id].status
            == before.jobs.jobs[id].status && after.jobs.jobs[id].session_id
            == before.jobs.jobs[id].session_id,
        after.sessions == before.sessions,
        after.cancellable == before.cancellable,
        r matches Err(e) ==> e@ == (if before.jobs.jobs.contains_key(id) {
            ErrorView::LogBufferOverflow { cap: before.jobs.jobs[id].log_buffer.cap() }
        } else {
            ErrorView::JobNotFound(id)
        }),
{
}

/// A logged line is the text with one line feed at its end, no matter whether the
/// text had it already.
pub proof fn lines_end_with_a_line_feed(text: Seq<char>)
    ensures
        line_bytes(text).len() > 0,
        line_bytes(text).last() == 10,
        line_bytes(text) == encode_utf8(text) || line_bytes(text).drop_last() == encode_utf8(text),
        encode_utf8(text).len() > 0 && encode_utf8(text).last() == 10 ==> line_bytes(text)
            == encode_utf8(text),
{
    if line_bytes(text) != encode_utf8(text) {
        assert(line_bytes(text).drop_last() =~= encode_utf8(text));
    }
}

/// A start fails exactly where nothing was spawned, and the failure says whether
/// the sandbox was missing, could not be applied, or the program did not start.
pub proof fn failed_starts_are_told_apart(spawned: SpawnOutcome)
    ensures
        spawn_failure(spawned) is None <==> spawned is Spawned,
        match spawn_failure(spawned) {
            Some(ErrorView::JobSpawn { reason }) => spawned matches SpawnOutcome::SpawnFailed(said)
                && said@ == reason,
            Some(ErrorView::SandboxUnavailable { source }) => spawned matches
                SpawnOutcome::SandboxFailed(e) && e@ == source && source is Unavailable,
            Some(ErrorView::SandboxApply { source }) => spawned matches
                SpawnOutcome::SandboxFailed(e) && e@ == source && source is Apply,
            Some(_) => false,
            None => true,
        },
{
}

/// A job belongs to one session: no other session can reach it.
pub proof fn jobs_have_one_owner(state: EngineView, a: Seq<char>, b: Seq<char>, job: Seq<char>)
    requires
        owns(state, a, job),
        owns(state, b, job),
    ensures
        a == b,
        a == state.jobs.jobs[job].session_id@,
{
}

/// A job is cancelled once: the first cancellation by its owner says that there was
/// something to cancel, as long as the job could be cancelled, and any later one
/// says that there was not. A cancellation touches nothing else, and a stranger's
/// nothing at all.
pub proof fn jobs_are_cancelled_once(
    before: EngineView,
    between: EngineView,
    after: EngineView,
    req: JobCancelRequest,
    first: Result<JobCancelResponse, Error>,
    second: Result<JobCancelResponse, Error>,
    other: Seq<char>,
)
    requires
        cancel_settled(before, between, req, first),
        cancel_settled(between, after, req, second),
    ensures
        first is Ok <==> owns(before, req.session_id@, req.job_id@),
        first matches Ok(response) ==> response.ok == before.cancellable.contains(req.job_id@),
        second is Ok <==> first is Ok,
        second matches Ok(response) ==> !response.ok,
        first is Ok ==> !between.cancellable.contains(req.job_id@),
        other != req.job_id@ ==> between.cancellable.contains(other) == before.cancellable.contains(
            other,
        ),
        first matches Err(e) ==> e@ == ErrorView::JobNotFound(req.job_id@) && between == before,
        between.jobs == before.jobs,
        between.sessions == before.sessions,
        between.next_id == before.next_id,
{
}

/// Who owns a job learns its true status and how many events it has logged; who
/// does not learns only that there is no such job.
pub proof fn owners_see_the_true_status(
    state: EngineView,
    req: JobStatusRequest,
    r: Result<JobStatusResponse, Error>,
)
    requires
        status_settled(state, req, r),
    ensures
        r is Ok <==> owns(state, req.session_id@, req.job_id@),
        r matches Ok(response) ==> {
            &&& response.job_id@ == req.job_id@
            &&& response.status@ == state.jobs.jobs[req.job_id@].status@
            &&& response.seq == state.jobs.jobs[req.job_id@].log_buffer.log().len()
        },
        r matches Err(e) ==> e@ == ErrorView::JobNotFound(req.job_id@),
{
}

/// What happens to one job leaves every other one as it was, and output leaves
/// its own job as it was but for the log.
pub proof fn other_jobs_are_left_alone(
    before: EngineView,
    after: EngineView,
    id: Seq<char>,
    session_id: Seq<char>,
    status: StatusView,
    chunk: ChunkView,
    r: Result<(), Error>,
    now: Timestamp,
    other: Seq<char>,
)
    requires
        finished(before, after, id, session_id, status, now) || output_logged(
            before,
            after,
            id,
            chunk,
            r,
        ),
    ensures
        after.jobs.jobs.contains_key(other) == before.jobs.jobs.contains_key(other),
        other != id ==> after.jobs.jobs[other] == before.jobs.jobs[other],
        ids_of(after.jobs, session_id) == ids_of(before.jobs, session_id),
        output_logged(before, after, id, chunk, r) && before.jobs.jobs.contains_key(id) ==> {
            let (was, job) = (before.jobs.jobs[id], after.jobs.jobs[id]);
            &&& job.id == was.id
            &&& job.payload == was.payload
            &&& job.cwd == was.cwd
            &&& job.created_at == was.created_at
            &&& job.started_at == was.started_at
            &&& job.finished_at == was.finished_at
            &&& job.log_buffer.cap() == was.log_buffer.cap()
        },
{
}

} // verus!
