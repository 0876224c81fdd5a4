//! The runtime demo: a session, a look at the catalog, one job and the replay of
//! its log, as a sequence of calls that the caller performs one by one.

use vstd::prelude::*;
use vstd::string::*;
use vstd::utf8::encode_utf8;

use crate::cli::report::{
    has_ended, has_succeeded, is_success_status, is_terminal, label_of, status_label,
    RuntimeMeasurement, RuntimeStepDurations,
};
use crate::octets::{bytes_to_lossy_text, lossy_text};
use crate::proto::capability::{grant_texts, Capability};
use crate::proto::discovery::{
    CapabilityDetail, DescribeRequest, IndexEntry, IndexRequest, IndexResponse,
};
use crate::job::status::StatusView;
use crate::proto::ids::JobId;
use crate::proto::job::{
    JobAttachRequest, JobCancelRequest, JobPayload, JobStartRequest, JobStatusProto,
    JobStatusRequest, LogEventFrame,
};
use crate::proto::session::{SessionCloseRequest, SessionOpenRequest, SessionOpenResponse};
use crate::proto::tier::EnforcementTier;
use crate::text::{
    begins_with, concat_text, contains_text, holds_text, stands_at, trim_end, trim_end_text,
};

verus! {

/// How long the demo waits for its job by default, in milliseconds.
pub const DEFAULT_POLL_TIMEOUT_MS: u64 = 5_000;

/// How long it pauses between two looks at the job by default, in milliseconds.
pub const DEFAULT_POLL_INTERVAL_MS: u64 = 50;

/// What the demo's job prints.
pub const RUNTIME_MARKER: &'static str = "axp-runtime-smoke";

/// Nanoseconds in one millisecond.
pub const NANOS_PER_MILLI: u128 = 1_000_000;

/// Arguments of the demo command group.
#[derive(Debug)]
pub struct DemoArgs {
    /// The demo to run.
    pub command: DemoCommand,
}

/// Demo commands.
#[derive(Debug)]
pub enum DemoCommand {
    /// Exercise the calls and the event stream of a running server.
    Runtime(RuntimeArgs),
}

/// Arguments of the runtime demo.
#[derive(Debug)]
pub struct RuntimeArgs {
    /// Base URL of the server.
    pub addr: String,
    /// Print one JSON object in place of a report for a reader.
    pub json: bool,
    /// How long to wait for the job, in milliseconds.
    pub poll_timeout_ms: u64,
    /// How long to pause between two looks at the job, in milliseconds.
    pub poll_interval_ms: u64,
}

impl Default for RuntimeArgs {
    fn default() -> (r: Self)
        ensures
            r.addr@ == "http://127.0.0.1:7300"@,
            !r.json,
            r.poll_timeout_ms == DEFAULT_POLL_TIMEOUT_MS,
            r.poll_interval_ms == DEFAULT_POLL_INTERVAL_MS,
    {
        RuntimeArgs {
            addr: "http://127.0.0.1:7300".to_owned(),
            json: false,
            poll_timeout_ms: DEFAULT_POLL_TIMEOUT_MS,
            poll_interval_ms: DEFAULT_POLL_INTERVAL_MS,
        }
    }
}

/// Whether one byte sequence stands before another in dictionary order, or is the
/// same.
pub open spec fn bytes_le(a: Seq<u8>, b: Seq<u8>) -> bool
    decreases a.len(),
{
    if a.len() == 0 {
        true
    } else if b.len() == 0 {
        false
    } else if a[0] != b[0] {
        a[0] < b[0]
    } else {
        bytes_le(a.skip(1), b.skip(1))
    }
}

/// Whether one text stands before another in the order of their UTF-8 forms, or
/// is the same.
pub open spec fn text_le(a: Seq<char>, b: Seq<char>) -> bool {
    bytes_le(encode_utf8(a), encode_utf8(b))
}

proof fn lemma_bytes_le_total(a: Seq<u8>, b: Seq<u8>)
    ensures
        bytes_le(a, b) || bytes_le(b, a),
    decreases a.len(),
{
    if a.len() > 0 && b.len() > 0 {
        lemma_bytes_le_total(a.skip(1), b.skip(1));
    }
}

proof fn lemma_bytes_le_transitive(a: Seq<u8>, b: Seq<u8>, c: Seq<u8>)
    requires
        bytes_le(a, b),
        bytes_le(b, c),
    ensures
        bytes_le(a, c),
    decreases a.len(),
{
    if a.len() > 0 && b.len() > 0 && c.len() > 0 && a[0] == b[0] && b[0] == c[0] {
        lemma_bytes_le_transitive(a.skip(1), b.skip(1), c.skip(1));
    }
}

fn stands_before(a: &str, b: &str) -> (r: bool)
    ensures
        r == text_le(a@, b@),
{
    let left = a.as_bytes();
    let right = b.as_bytes();
    let mut i: usize = 0;
    assert(left@.skip(0) =~= left@);
    assert(right@.skip(0) =~= right@);
    while i < left.len()
        invariant
            left@ == encode_utf8(a@),
            right@ == encode_utf8(b@),
            i <= left@.len(),
            i <= right@.len(),
            bytes_le(left@, right@) == bytes_le(left@.skip(i as int), right@.skip(i as int)),
        decreases left@.len() - i,
    {
        if i >= right.len() {
            return false;
        }
        let x: u8 = left[i];
        let y: u8 = right[i];
        assert(left@.skip(i as int)[0] == x);
        assert(right@.skip(i as int)[0] == y);
        if x != y {
            return x < y;
        }
        assert(left@.skip(i as int).skip(1) =~= left@.skip(i + 1));
        assert(right@.skip(i as int).skip(1) =~= right@.skip(i + 1));
        i = i + 1;
    }
    true
}

/// Whether a name is the least of a catalog.
pub open spec fn is_least_name(name: Seq<char>, entries: Seq<IndexEntry>) -> bool {
    &&& exists|i: int| 0 <= i < entries.len() && (#[trigger] entries[i]).name@ == name
    &&& forall|i: int| 0 <= i < entries.len() ==> text_le(name, (#[trigger] entries[i]).name@)
}

/// The least name of a catalog; an empty one has none.
pub fn least_name(entries: &Vec<IndexEntry>) -> (r: Option<String>)
    ensures
        match r {
            Some(name) => is_least_name(name@, entries@),
            None => entries@.len() == 0,
        },
{
    if entries.len() == 0 {
        return None;
    }
    let mut at: usize = 0;
    let mut i: usize = 1;
    proof {
        lemma_bytes_le_total(encode_utf8(entries@[0].name@), encode_utf8(entries@[0].name@));
    }
    while i < entries.len()
        invariant
            at < i <= entries@.len(),
            forall|k: int|
                0 <= k < i ==> text_le(entries@[at as int].name@, (#[trigger] entries@[k]).name@),
        decreases entries@.len() - i,
    {
        let ghost held = entries@[at as int].name@;
        let ghost next = entries@[i as int].name@;
        proof {
            lemma_bytes_le_total(encode_utf8(held), encode_utf8(next));
            lemma_bytes_le_total(encode_utf8(next), encode_utf8(next));
        }
        if !stands_before(entries[at].name.as_str(), entries[i].name.as_str()) {
            proof {
                assert forall|k: int| 0 <= k < i implies text_le(next, (#[trigger] entries@[k]).name@) by {
                    lemma_bytes_le_transitive(
                        encode_utf8(next),
                        encode_utf8(held),
                        encode_utf8(entries@[k].name@),
                    );
                }
            }
            at = i;
        }
        i = i + 1;
    }
    assert(entries@[at as int].name@ == entries@[at as int].name@);
    Some(entries[at].name.clone())
}

/// The bytes of frames, in order.
pub open spec fn joined_data(frames: Seq<LogEventFrame>) -> Seq<u8>
    decreases frames.len(),
{
    if frames.len() == 0 {
        Seq::empty()
    } else {
        joined_data(frames.drop_last()) + frames.last().data@
    }
}

/// The bytes of frames, in order.
pub fn join_frames(frames: &Vec<LogEventFrame>) -> (r: Vec<u8>)
    ensures
        r@ == joined_data(frames@),
{
    let mut bytes: Vec<u8> = Vec::new();
    let mut i: usize = 0;
    assert(frames@.take(0) =~= Seq::<LogEventFrame>::empty());
    while i < frames.len()
        invariant
            i <= frames@.len(),
            bytes@ == joined_data(frames@.take(i as int)),
        decreases frames@.len() - i,
    {
        let mut more = frames[i].data.clone();
        assert(more@ =~= frames@[i as int].data@);
        assert(frames@.take(i + 1).drop_last() =~= frames@.take(i as int));
        bytes.append(&mut more);
        i = i + 1;
    }
    assert(frames@.take(frames@.len() as int) =~= frames@);
    bytes
}

/// How long to pause before the next look, in nanoseconds: no longer than the
/// interval and than what is left of the timeout. When nothing is left, the wait
/// is over.
pub open spec fn pause(elapsed: int, timeout: int, interval: int) -> Option<int> {
    if elapsed >= timeout {
        None
    } else if interval <= timeout - elapsed {
        Some(interval)
    } else {
        Some(timeout - elapsed)
    }
}

/// How long to pause before the next look, in nanoseconds.
pub fn next_pause(elapsed: u128, timeout: u128, interval: u128) -> (r: Option<u128>)
    ensures
        match r {
            Some(nanos) => pause(elapsed as int, timeout as int, interval as int) == Some(
                nanos as int,
            ),
            None => pause(elapsed as int, timeout as int, interval as int) is None,
        },
{
    if elapsed >= timeout {
        return None;
    }
    let remaining: u128 = timeout - elapsed;
    if interval <= remaining {
        Some(interval)
    } else {
        Some(remaining)
    }
}

/// Judge the replayed log: its text without white space at its end, where it
/// holds the marker.
pub fn judge_replay(log: &str) -> (r: Result<String, String>)
    ensures
        match r {
            Ok(text) => text@ == trim_end(log@) && holds_text(text@, RUNTIME_MARKER@),
            Err(reason) => !holds_text(trim_end(log@), RUNTIME_MARKER@) && reason@
                == "attached log replay did not contain runtime marker"@,
        },
{
    let text = trim_end_text(log);
    if contains_text(text.as_str(), RUNTIME_MARKER) {
        Ok(text)
    } else {
        Err("attached log replay did not contain runtime marker".to_owned())
    }
}

/// What the demo has learnt so far.
#[derive(Debug)]
pub struct DemoProgress {
    /// The open session.
    pub session: SessionOpenResponse,
    /// How long the steps took.
    pub steps: RuntimeStepDurations,
    /// The number of capabilities in the catalog.
    pub catalog_count: usize,
    /// The capability that is described.
    pub name: String,
    /// Its signature.
    pub signature: String,
    /// The job.
    pub job_id: JobId,
    /// How often the job's status was read.
    pub polls: u64,
    /// How the job ended.
    pub label: String,
}

/// Where the demo stands: which call it waits for.
#[derive(Debug)]
pub enum DemoState {
    /// Opening the session.
    Opening,
    /// Reading the catalog.
    Indexing(DemoProgress),
    /// Describing a capability.
    Describing(DemoProgress),
    /// Starting the job.
    Starting(DemoProgress),
    /// Waiting for its end.
    Polling(DemoProgress),
    /// Cancelling it, because of a reason.
    Cancelling(DemoProgress, String),
    /// Replaying its log.
    Attaching(DemoProgress),
    /// Printing the measurement.
    Printing(DemoProgress),
    /// Closing the session, with this outcome of the demo.
    Closing(DemoProgress, Result<(), String>),
    /// Nothing any more, with this outcome of the demo.
    Done(Result<(), String>),
}

/// What a call gave, and how long it took in milliseconds.
#[derive(Debug)]
pub enum DemoEvent {
    /// The session is open.
    Opened {
        /// The response.
        session: SessionOpenResponse,
        /// The time it took.
        ms: u64,
    },
    /// The catalog was read.
    Indexed {
        /// The response.
        index: IndexResponse,
        /// The time it took.
        ms: u64,
    },
    /// The capability was described.
    Described {
        /// The response.
        detail: CapabilityDetail,
        /// The time it took.
        ms: u64,
    },
    /// The job was started.
    Started {
        /// The job.
        job_id: JobId,
        /// The time it took.
        ms: u64,
    },
    /// The job's status was read.
    Polled {
        /// The status.
        status: JobStatusProto,
        /// Nanoseconds since the waiting began.
        elapsed: u128,
        /// Milliseconds since the waiting began.
        ms: u64,
    },
    /// The pause is over.
    Slept,
    /// The job was cancelled, or that failed.
    Cancelled,
    /// The log was replayed.
    Attached {
        /// Its frames.
        frames: Vec<LogEventFrame>,
        /// The time it took.
        ms: u64,
        /// The time since the demo began.
        total_ms: u64,
    },
    /// The measurement was printed.
    Printed,
    /// The session was closed.
    Closed,
    /// The call failed.
    Failed(String),
}

/// What the caller has to do next.
#[derive(Debug)]
pub enum DemoAction {
    /// Read the catalog.
    Index(IndexRequest),
    /// Describe a capability.
    Describe(DescribeRequest),
    /// Start the job.
    Start(JobStartRequest),
    /// Read the job's status.
    Poll(JobStatusRequest),
    /// Pause for so many nanoseconds.
    Sleep(u128),
    /// Cancel the job.
    Cancel(JobCancelRequest),
    /// Replay the log.
    Attach(JobAttachRequest),
    /// Print the measurement.
    Print(RuntimeMeasurement),
    /// Close the session.
    Close(SessionCloseRequest),
    /// End.
    Finish,
    /// The event does not belong here; nothing changes.
    Ignore,
}

/// The request that opens the demo's session.
pub fn open_request(workspace: String) -> (r: SessionOpenRequest)
    ensures
        r.workspace == workspace,
        r.sandbox_tier == EnforcementTier::DevNone,
        grant_texts(r.capabilities@) == seq!["proc.spawn"@],
{
    let mut capabilities: Vec<Capability> = Vec::new();
    capabilities.push(Capability("proc.spawn".to_owned()));
    assert(grant_texts(capabilities@) =~= seq!["proc.spawn"@]);
    SessionOpenRequest { workspace, sandbox_tier: EnforcementTier::DevNone, capabilities }
}

/// Whether a request starts the demo's job: a command that prints the marker.
pub open spec fn starts_the_job(req: JobStartRequest, session: SessionOpenResponse) -> bool {
    &&& req.session_id == session.session_id
    &&& req.cap_token == session.cap_token
    &&& req.payload matches JobPayload::Command { command } && command@
        == "printf 'axp-runtime-smoke\\n'"@
    &&& req.cwd is None
    &&& req.capabilities@.len() == 0
}

fn start_request(session: &SessionOpenResponse) -> (r: JobStartRequest)
    ensures
        starts_the_job(r, *session),
{
    JobStartRequest {
        session_id: session.session_id.clone(),
        cap_token: session.cap_token.clone(),
        payload: JobPayload::Command { command: "printf 'axp-runtime-smoke\\n'".to_owned() },
        cwd: None,
        capabilities: Vec::new(),
    }
}

/// The request that closes a session.
pub open spec fn closing(session: SessionOpenResponse) -> DemoAction {
    DemoAction::Close(
        SessionCloseRequest { session_id: session.session_id, cap_token: session.cap_token },
    )
}

fn close_action(session: &SessionOpenResponse) -> (r: DemoAction)
    ensures
        r == closing(*session),
{
    DemoAction::Close(
        SessionCloseRequest {
            session_id: session.session_id.clone(),
            cap_token: session.cap_token.clone(),
        },
    )
}

/// The request that cancels the demo's job.
pub open spec fn cancelling(p: DemoProgress) -> DemoAction {
    DemoAction::Cancel(
        JobCancelRequest {
            session_id: p.session.session_id,
            cap_token: p.session.cap_token,
            job_id: p.job_id,
        },
    )
}

fn cancel_action(p: &DemoProgress) -> (r: DemoAction)
    ensures
        r == cancelling(*p),
{
    DemoAction::Cancel(
        JobCancelRequest {
            session_id: p.session.session_id.clone(),
            cap_token: p.session.cap_token.clone(),
            job_id: p.job_id.clone(),
        },
    )
}

/// The request that reads the status of the demo's job.
pub open spec fn polling(p: DemoProgress) -> DemoAction {
    DemoAction::Poll(
        JobStatusRequest {
            session_id: p.session.session_id,
            cap_token: p.session.cap_token,
            job_id: p.job_id,
        },
    )
}

fn poll_action(p: &DemoProgress) -> (r: DemoAction)
    ensures
        r == polling(*p),
{
    DemoAction::Poll(
        JobStatusRequest {
            session_id: p.session.session_id.clone(),
            cap_token: p.session.cap_token.clone(),
            job_id: p.job_id.clone(),
        },
    )
}

/// The request that replays the log of the demo's job.
pub open spec fn attaching(p: DemoProgress) -> DemoAction {
    DemoAction::Attach(
        JobAttachRequest {
            session_id: p.session.session_id,
            cap_token: p.session.cap_token,
            job_id: p.job_id,
            from_offset: 0,
        },
    )
}

fn attach_action(p: &DemoProgress) -> (r: DemoAction)
    ensures
        r == attaching(*p),
{
    DemoAction::Attach(
        JobAttachRequest {
            session_id: p.session.session_id.clone(),
            cap_token: p.session.cap_token.clone(),
            job_id: p.job_id.clone(),
            from_offset: 0,
        },
    )
}

/// Whether two states of progress differ at most in the job's status.
pub open spec fn same_but_status(a: DemoProgress, b: DemoProgress) -> bool {
    &&& a.session == b.session
    &&& a.catalog_count == b.catalog_count
    &&& a.name == b.name
    &&& a.signature == b.signature
    &&& a.job_id == b.job_id
}

/// Whether the demo gives up and closes its session, with a reason.
pub open spec fn gives_up(
    session: SessionOpenResponse,
    after: DemoState,
    action: DemoAction,
    reason: Seq<char>,
) -> bool {
    &&& after matches DemoState::Closing(p, Err(text)) && p.session == session && text@ == reason
    &&& action == closing(session)
}

/// Whether a measurement says what the demo learnt.
pub open spec fn measures(
    m: RuntimeMeasurement,
    p: DemoProgress,
    ms: u64,
    total_ms: u64,
    log: Seq<u8>,
) -> bool {
    &&& m.total_ms == total_ms
    &&& m.steps == (RuntimeStepDurations { job_attach_ms: ms, ..p.steps })
    &&& m.catalog_count == p.catalog_count
    &&& m.described_capability == p.name
    &&& m.described_signature == p.signature
    &&& m.terminal_job_status == p.label
    &&& m.status_poll_count == p.polls
    &&& m.log_replay_success
    &&& m.attach_bytes == log.len()
    &&& m.log_marker@ == RUNTIME_MARKER@
    &&& m.log_text@ == trim_end(lossy_text(log))
}

/// Whether the demo went on by exactly an event.
///
/// A failure before the session is open ends the demo; any later one closes the
/// session first, and one while waiting for the job cancels that before. The
/// outcome of closing counts only where all went well before.
pub open spec fn demo_stepped(
    before: DemoState,
    event: DemoEvent,
    timeout: u128,
    interval: u128,
    after: DemoState,
    action: DemoAction,
) -> bool {
    match (before, event) {
        (DemoState::Opening, DemoEvent::Opened { session, ms }) => {
            &&& after matches DemoState::Indexing(p) && p.session == session
                && p.steps.session_open_ms == ms && p.polls == 0
            &&& action == DemoAction::Index(
                IndexRequest { session_id: session.session_id, cap_token: session.cap_token },
            )
        },
        (DemoState::Opening, DemoEvent::Failed(reason)) => {
            &&& after == DemoState::Done(Err(reason))
            &&& action == DemoAction::Finish
        },
        (DemoState::Indexing(p), DemoEvent::Indexed { index, ms }) => {
            if index.entries@.len() == 0 {
                gives_up(p.session, after, action, "server returned an empty capability index"@)
            } else {
                &&& after matches DemoState::Describing(q) && is_least_name(
                    q.name@,
                    index.entries@,
                ) && q == (DemoProgress {
                    steps: RuntimeStepDurations { index_ms: ms, ..p.steps },
                    catalog_count: index.entries@.len() as usize,
                    name: q.name,
                    ..p
                }) && action == DemoAction::Describe(
                    DescribeRequest {
                        session_id: p.session.session_id,
                        cap_token: p.session.cap_token,
                        name: q.name,
                    },
                )
            }
        },
        (DemoState::Indexing(p), DemoEvent::Failed(reason)) => gives_up(
            p.session,
            after,
            action,
            reason@,
        ),
        (DemoState::Describing(p), DemoEvent::Described { detail, ms }) => {
            &&& after == DemoState::Starting(
                DemoProgress {
                    steps: RuntimeStepDurations { describe_ms: ms, ..p.steps },
                    signature: detail.signature,
                    ..p
                },
            )
            &&& action matches DemoAction::Start(req) && starts_the_job(req, p.session)
        },
        (DemoState::Describing(p), DemoEvent::Failed(reason)) => gives_up(
            p.session,
            after,
            action,
            reason@,
        ),
        (DemoState::Starting(p), DemoEvent::Started { job_id, ms }) => {
            let q = DemoProgress {
                steps: RuntimeStepDurations { job_start_ms: ms, ..p.steps },
                job_id,
                ..p
            };
            &&& after == DemoState::Polling(q)
            &&& action == polling(q)
        },
        (DemoState::Starting(p), DemoEvent::Failed(reason)) => gives_up(
            p.session,
            after,
            action,
            reason@,
        ),
        (DemoState::Polling(p), DemoEvent::Polled { status, elapsed, ms }) => {
            let polls = if p.polls == u64::MAX {
                p.polls
            } else {
                (p.polls + 1) as u64
            };
            if !has_ended(status@) {
                let q = DemoProgress { polls, ..p };
                match pause(elapsed as int, timeout as int, interval as int) {
                    Some(nanos) => {
                        &&& after == DemoState::Polling(q)
                        &&& action matches DemoAction::Sleep(given) && given == nanos
                    },
                    None => {
                        &&& after matches DemoState::Cancelling(r, reason) && r == q && reason@
                            == "job did not reach a terminal state within timeout"@
                        &&& action == cancelling(q)
                    },
                }
            } else if has_succeeded(status@) {
                &&& after matches DemoState::Attaching(q) && same_but_status(q, p) && q.polls
                    == polls && q.steps == (RuntimeStepDurations {
                    job_status_poll_ms: ms,
                    ..p.steps
                }) && q.label@ == label_of(status@)
                &&& action == attaching(p)
            } else {
                gives_up(
                    p.session,
                    after,
                    action,
                    "job reached non-success terminal status: "@ + label_of(status@),
                )
            }
        },
        (DemoState::Polling(p), DemoEvent::Slept) => {
            &&& after == before
            &&& action == polling(p)
        },
        (DemoState::Polling(p), DemoEvent::Failed(reason)) => {
            &&& after == DemoState::Cancelling(p, reason)
            &&& action == cancelling(p)
        },
        (DemoState::Cancelling(p, reason), DemoEvent::Cancelled) => {
            &&& after == DemoState::Closing(p, Err(reason))
            &&& action == closing(p.session)
        },
        (DemoState::Attaching(p), DemoEvent::Attached { frames, ms, total_ms }) => {
            let log = joined_data(frames@);
            if holds_text(trim_end(lossy_text(log)), RUNTIME_MARKER@) {
                &&& after matches DemoState::Printing(q) && q.session == p.session
                &&& action matches DemoAction::Print(m) && measures(m, p, ms, total_ms, log)
            } else {
                gives_up(
                    p.session,
                    after,
                    action,
                    "attached log replay did not contain runtime marker"@,
                )
            }
        },
        (DemoState::Attaching(p), DemoEvent::Failed(reason)) => gives_up(
            p.session,
            after,
            action,
            reason@,
        ),
        (DemoState::Printing(p), DemoEvent::Printed) => {
            &&& after == DemoState::Closing(p, Ok(()))
            &&& action == closing(p.session)
        },
        (DemoState::Printing(p), DemoEvent::Failed(reason)) => gives_up(
            p.session,
            after,
            action,
            reason@,
        ),
        (DemoState::Closing(p, outcome), DemoEvent::Closed) => {
            &&& after == DemoState::Done(outcome)
            &&& action == DemoAction::Finish
        },
        (DemoState::Closing(p, outcome), DemoEvent::Failed(reason)) => {
            &&& after == DemoState::Done(
                match outcome {
                    Ok(_) => Err(reason),
                    Err(earlier) => Err(earlier),
                },
            )
            &&& action == DemoAction::Finish
        },
        _ => after == before && action == DemoAction::Ignore,
    }
}

fn give_up(p: DemoProgress, reason: String) -> (r: (DemoState, DemoAction))
    ensures
        gives_up(p.session, r.0, r.1, reason@),
{
    let action = close_action(&p.session);
    (DemoState::Closing(p, Err(reason)), action)
}

fn after_index(p: DemoProgress, index: IndexResponse, ms: u64) -> (r: (DemoState, DemoAction))
    ensures
        demo_stepped(
            DemoState::Indexing(p),
            (DemoEvent::Indexed { index, ms }),
            0,
            0,
            r.0,
            r.1,
        ),
{
    match least_name(&index.entries) {
        None => give_up(p, "server returned an empty capability index".to_owned()),
        Some(name) => {
            let mut q = p;
            q.steps.index_ms = ms;
            q.catalog_count = index.entries.len();
            q.name = name;
            let request = DescribeRequest {
                session_id: q.session.session_id.clone(),
                cap_token: q.session.cap_token.clone(),
                name: q.name.clone(),
            };
            (DemoState::Describing(q), DemoAction::Describe(request))
        },
    }
}

fn after_poll(
    p: DemoProgress,
    status: JobStatusProto,
    elapsed: u128,
    ms: u64,
    timeout: u128,
    interval: u128,
) -> (r: (DemoState, DemoAction))
    ensures
        demo_stepped(
            DemoState::Polling(p),
            (DemoEvent::Polled { status, elapsed, ms }),
            timeout,
            interval,
            r.0,
            r.1,
        ),
{
    let mut q = p;
    if q.polls < u64::MAX {
        q.polls = q.polls + 1;
    }
    if !is_terminal(&status) {
        return match next_pause(elapsed, timeout, interval) {
            Some(nanos) => (DemoState::Polling(q), DemoAction::Sleep(nanos)),
            None => {
                let action = cancel_action(&q);
                (
                    DemoState::Cancelling(
                        q,
                        "job did not reach a terminal state within timeout".to_owned(),
                    ),
                    action,
                )
            },
        };
    }
    let label = status_label(&status);
    if !is_success_status(&status) {
        return give_up(
            q,
            concat_text("job reached non-success terminal status: ", label.as_str()),
        );
    }
    q.steps.job_status_poll_ms = ms;
    q.label = label;
    let action = attach_action(&q);
    (DemoState::Attaching(q), action)
}

fn after_attach(p: DemoProgress, frames: Vec<LogEventFrame>, ms: u64, total_ms: u64) -> (r: (
    DemoState,
    DemoAction,
))
    ensures
        demo_stepped(
            DemoState::Attaching(p),
            (DemoEvent::Attached { frames, ms, total_ms }),
            0,
            0,
            r.0,
            r.1,
        ),
{
    let bytes = join_frames(&frames);
    let log = bytes_to_lossy_text(bytes.as_slice());
    match judge_replay(log.as_str()) {
        Err(reason) => give_up(p, reason),
        Ok(text) => {
            let mut steps = p.steps;
            steps.job_attach_ms = ms;
            let measurement = RuntimeMeasurement {
                total_ms,
                steps,
                catalog_count: p.catalog_count,
                described_capability: p.name.clone(),
                described_signature: p.signature.clone(),
                terminal_job_status: p.label.clone(),
                status_poll_count: p.polls,
                log_replay_success: true,
                attach_bytes: bytes.len(),
                log_marker: RUNTIME_MARKER.to_owned(),
                log_text: text,
            };
            (DemoState::Printing(p), DemoAction::Print(measurement))
        },
    }
}

impl DemoState {
    /// Go on by one event; `timeout` and `interval` of the wait are in
    /// nanoseconds.
    pub fn step(self, event: DemoEvent, timeout: u128, interval: u128) -> (r: (
        DemoState,
        DemoAction,
    ))
        ensures
            demo_stepped(self, event, timeout, interval, r.0, r.1),
    {
        match (self, event) {
            (DemoState::Opening, DemoEvent::Opened { session, ms }) => {
                let request = IndexRequest {
                    session_id: session.session_id.clone(),
                    cap_token: session.cap_token.clone(),
                };
                let p = DemoProgress {
                    session,
                    steps: RuntimeStepDurations {
                        session_open_ms: ms,
                        index_ms: 0,
                        describe_ms: 0,
                        job_start_ms: 0,
                        job_status_poll_ms: 0,
                        job_attach_ms: 0,
                    },
                    catalog_count: 0,
                    name: String::new(),
                    signature: String::new(),
                    job_id: JobId(String::new()),
                    polls: 0,
                    label: String::new(),
                };
                (DemoState::Indexing(p), DemoAction::Index(request))
            },
            (DemoState::Opening, DemoEvent::Failed(reason)) => (
                DemoState::Done(Err(reason)),
                DemoAction::Finish,
            ),
            (DemoState::Indexing(p), DemoEvent::Indexed { index, ms }) => after_index(p, index, ms),
            (DemoState::Indexing(p), DemoEvent::Failed(reason)) => give_up(p, reason),
            (DemoState::Describing(p), DemoEvent::Described { detail, ms }) => {
                let mut q = p;
                q.steps.describe_ms = ms;
                q.signature = detail.signature;
                let request = start_request(&q.session);
                (DemoState::Starting(q), DemoAction::Start(request))
            },
            (DemoState::Describing(p), DemoEvent::Failed(reason)) => give_up(p, reason),
            (DemoState::Starting(p), DemoEvent::Started { job_id, ms }) => {
                let mut q = p;
                q.steps.job_start_ms = ms;
                q.job_id = job_id;
                let action = poll_action(&q);
                (DemoState::Polling(q), action)
            },
            (DemoState::Starting(p), DemoEvent::Failed(reason)) => give_up(p, reason),
            (DemoState::Polling(p), DemoEvent::Polled { status, elapsed, ms }) => after_poll(
                p,
                status,
                elapsed,
                ms,
                timeout,
                interval,
            ),
            (DemoState::Polling(p), DemoEvent::Slept) => {
                let action = poll_action(&p);
                (DemoState::Polling(p), action)
            },
            (DemoState::Polling(p), DemoEvent::Failed(reason)) => {
                let action = cancel_action(&p);
                (DemoState::Cancelling(p, reason), action)
            },
            (DemoState::Cancelling(p, reason), DemoEvent::Cancelled) => {
                let action = close_action(&p.session);
                (DemoState::Closing(p, Err(reason)), action)
            },
            (DemoState::Attaching(p), DemoEvent::Attached { frames, ms, total_ms }) => after_attach(
                p,
                frames,
                ms,
                total_ms,
            ),
            (DemoState::Attaching(p), DemoEvent::Failed(reason)) => give_up(p, reason),
            (DemoState::Printing(p), DemoEvent::Printed) => {
                let action = close_action(&p.session);
                (DemoState::Closing(p, Ok(())), action)
            },
            (DemoState::Printing(p), DemoEvent::Failed(reason)) => give_up(p, reason),
            (DemoState::Closing(p, outcome), DemoEvent::Closed) => (
                DemoState::Done(outcome),
                DemoAction::Finish,
            ),
            (DemoState::Closing(p, outcome), DemoEvent::Failed(reason)) => (
                DemoState::Done(
                    match outcome {
                        Ok(_) => Err(reason),
                        Err(earlier) => Err(earlier),
                    },
                ),
                DemoAction::Finish,
            ),
            (state, _) => (state, DemoAction::Ignore),
        }
    }
}

/// Whether the demo went through these states by these events, asking for these
/// actions.
pub open spec fn demo_ran(
    states: Seq<DemoState>,
    events: Seq<DemoEvent>,
    actions: Seq<DemoAction>,
    timeout: u128,
    interval: u128,
) -> bool {
    &&& states.len() == events.len() + 1
    &&& actions.len() == events.len()
    &&& states[0] is Opening
    &&& forall|i: int|
        0 <= i < events.len() ==> demo_stepped(
            states[i],
            #[trigger] events[i],
            timeout,
            interval,
            states[i + 1],
            actions[i],
        )
}

/// Whether a step opened a session.
pub open spec fn opens(state: DemoState, event: DemoEvent) -> bool {
    state is Opening && event is Opened
}

/// Whether no action closes a session.
pub open spec fn closes_none(actions: Seq<DemoAction>) -> bool {
    forall|k: int| 0 <= k < actions.len() ==> !(#[trigger] actions[k] is Close)
}

/// Whether exactly one action closes a session, and it is this session.
pub open spec fn closes_once(actions: Seq<DemoAction>, session: SessionOpenResponse) -> bool {
    exists|k: int|
        0 <= k < actions.len() && #[trigger] actions[k] == closing(session) && forall|j: int|
            0 <= j < actions.len() && j != k ==> !(#[trigger] actions[j] is Close)
}

/// Whether a run opened a session, and no session but this one.
pub open spec fn opened_just(
    states: Seq<DemoState>,
    events: Seq<DemoEvent>,
    session: SessionOpenResponse,
) -> bool {
    &&& exists|i: int| 0 <= i < events.len() && opens(states[i], #[trigger] events[i])
    &&& forall|i: int|
        0 <= i < events.len() && opens(states[i], #[trigger] events[i]) ==> events[i]->session
            == session
}

/// Whether a run opened no session.
pub open spec fn opened_none(states: Seq<DemoState>, events: Seq<DemoEvent>) -> bool {
    forall|i: int| 0 <= i < events.len() ==> !opens(states[i], #[trigger] events[i])
}

/// What a run that stands in a state has opened and closed so far.
pub open spec fn accounts_for_sessions(
    states: Seq<DemoState>,
    events: Seq<DemoEvent>,
    actions: Seq<DemoAction>,
) -> bool {
    match states.last() {
        DemoState::Opening => opened_none(states, events) && closes_none(actions),
        DemoState::Closing(p, _) => opened_just(states, events, p.session) && closes_once(
            actions,
            p.session,
        ),
        DemoState::Done(_) => {
            ||| opened_none(states, events) && closes_none(actions)
            ||| exists|session: SessionOpenResponse| #[trigger]
                opened_just(states, events, session) && closes_once(actions, session)
        },
        DemoState::Indexing(p) => opened_just(states, events, p.session) && closes_none(actions),
        DemoState::Describing(p) => opened_just(states, events, p.session) && closes_none(actions),
        DemoState::Starting(p) => opened_just(states, events, p.session) && closes_none(actions),
        DemoState::Polling(p) => opened_just(states, events, p.session) && closes_none(actions),
        DemoState::Cancelling(p, _) => opened_just(states, events, p.session) && closes_none(
            actions,
        ),
        DemoState::Attaching(p) => opened_just(states, events, p.session) && closes_none(actions),
        DemoState::Printing(p) => opened_just(states, events, p.session) && closes_none(actions),
    }
}

proof fn lemma_opened_grows(
    states: Seq<DemoState>,
    events: Seq<DemoEvent>,
    session: SessionOpenResponse,
)
    requires
        states.len() == events.len() + 1,
        events.len() > 0,
        !opens(states[events.len() - 1], events.last()),
    ensures
        opened_none(states.drop_last(), events.drop_last()) ==> opened_none(states, events),
        opened_just(states.drop_last(), events.drop_last(), session) ==> opened_just(
            states,
            events,
            session,
        ),
{
    let earlier = events.drop_last();
    let before = states.drop_last();
    assert forall|i: int| 0 <= i < earlier.len() implies #[trigger] events[i] == earlier[i]
        && states[i] == before[i] by {}
    if opened_just(before, earlier, session) {
        let i = choose|i: int| 0 <= i < earlier.len() && opens(before[i], #[trigger] earlier[i]);
        assert(opens(states[i], events[i]));
    }
}

proof fn lemma_closes_grow(actions: Seq<DemoAction>, session: SessionOpenResponse)
    requires
        actions.len() > 0,
    ensures
        closes_none(actions.drop_last()) && !(actions.last() is Close) ==> closes_none(actions),
        closes_none(actions.drop_last()) && actions.last() == closing(session) ==> closes_once(
            actions,
            session,
        ),
        closes_once(actions.drop_last(), session) && !(actions.last() is Close) ==> closes_once(
            actions,
            session,
        ),
{
    let acted = actions.drop_last();
    assert forall|i: int| 0 <= i < acted.len() implies #[trigger] actions[i] == acted[i] by {}
    if closes_once(acted, session) && !(actions.last() is Close) {
        let k = choose|k: int|
            0 <= k < acted.len() && #[trigger] acted[k] == closing(session) && forall|j: int|
                0 <= j < acted.len() && j != k ==> !(#[trigger] acted[j] is Close);
        assert(actions[k] == closing(session));
    }
    if closes_none(acted) && actions.last() == closing(session) {
        assert(actions[acted.len() as int] == closing(session));
    }
}

/// A run accounts for its sessions in every state that it comes to.
pub proof fn run_accounts_for_sessions(
    states: Seq<DemoState>,
    events: Seq<DemoEvent>,
    actions: Seq<DemoAction>,
    timeout: u128,
    interval: u128,
)
    requires
        demo_ran(states, events, actions, timeout, interval),
    ensures
        accounts_for_sessions(states, events, actions),
    decreases events.len(),
{
    if events.len() > 0 {
        let n = events.len() - 1;
        let (before, earlier, acted) = (
            states.drop_last(),
            events.drop_last(),
            actions.drop_last(),
        );
        assert forall|i: int| 0 <= i < earlier.len() implies demo_stepped(
            before[i],
            #[trigger] earlier[i],
            timeout,
            interval,
            before[i + 1],
            acted[i],
        ) by {
            assert(earlier[i] == events[i]);
        }
        run_accounts_for_sessions(before, earlier, acted, timeout, interval);
        assert(demo_stepped(states[n], events[n], timeout, interval, states[n + 1], actions[n]));
        assert(before.last() == states[n]);
        assert forall|i: int| 0 <= i < n implies #[trigger] events[i] == earlier[i] && states[i]
            == before[i] by {}
        if opens(states[n], events[n]) {
            assert(opened_just(states, events, events[n]->session));
            lemma_closes_grow(actions, events[n]->session);
        } else {
            let session = match states[n] {
                DemoState::Indexing(p) => p.session,
                DemoState::Describing(p) => p.session,
                DemoState::Starting(p) => p.session,
                DemoState::Polling(p) => p.session,
                DemoState::Cancelling(p, _) => p.session,
                DemoState::Attaching(p) => p.session,
                DemoState::Printing(p) => p.session,
                DemoState::Closing(p, _) => p.session,
                _ => choose|session: SessionOpenResponse| #[trigger]
                    opened_just(before, earlier, session) && closes_once(acted, session),
            };
            lemma_opened_grows(states, events, session);
            lemma_closes_grow(actions, session);
        }
    }
}

/// A session that the demo opened is closed before the demo ends, whatever
/// happens in between: a run that has ended asked exactly once to close a
/// session, after it was opened, and it was that session.
pub proof fn opened_session_is_closed_before_the_end(
    states: Seq<DemoState>,
    events: Seq<DemoEvent>,
    actions: Seq<DemoAction>,
    timeout: u128,
    interval: u128,
    at: int,
)
    requires
        demo_ran(states, events, actions, timeout, interval),
        states.last() is Done,
        0 <= at < events.len(),
        opens(states[at], events[at]),
    ensures
        closes_once(actions, events[at]->session),
        forall|k: int| 0 <= k <= at ==> !(#[trigger] actions[k] is Close),
{
    run_accounts_for_sessions(states, events, actions, timeout, interval);
    let (first, taken, asked) = (states.take(at + 2), events.take(at + 1), actions.take(at + 1));
    assert forall|i: int| 0 <= i < taken.len() implies demo_stepped(
        first[i],
        #[trigger] taken[i],
        timeout,
        interval,
        first[i + 1],
        asked[i],
    ) by {
        assert(taken[i] == events[i]);
    }
    run_accounts_for_sessions(first, taken, asked, timeout, interval);
    assert(demo_stepped(
        states[at],
        events[at],
        timeout,
        interval,
        states[at + 1],
        actions[at],
    ));
    assert(first.last() == states[at + 1]);
    assert forall|k: int| 0 <= k <= at implies !(#[trigger] actions[k] is Close) by {
        assert(asked[k] == actions[k]);
    }
}

/// A pause is no longer than the interval and than what is left of the timeout,
/// and as long as these let it be; there is none once the timeout is reached.
pub proof fn pauses_fit_the_timeout(elapsed: int, timeout: int, interval: int)
    ensures
        pause(elapsed, timeout, interval) is None <==> elapsed >= timeout,
        pause(elapsed, timeout, interval) matches Some(nanos) ==> {
            &&& nanos <= interval
            &&& elapsed + nanos <= timeout
            &&& nanos == interval || elapsed + nanos == timeout
        },
{
}

/// Dictionary order looks at the first byte that differs, and a sequence stands
/// before what continues it.
pub proof fn first_difference_decides_the_order(
    start: Seq<u8>,
    a: u8,
    b: u8,
    rest: Seq<u8>,
    other: Seq<u8>,
)
    requires
        a != b,
    ensures
        bytes_le(start + seq![a] + rest, start + seq![b] + other) <==> a < b,
        bytes_le(start, start + rest),
        bytes_le(start + rest, start) <==> rest.len() == 0,
    decreases start.len(),
{
    let left = start + seq![a] + rest;
    let right = start + seq![b] + other;
    if start.len() > 0 {
        let tail = start.skip(1);
        first_difference_decides_the_order(tail, a, b, rest, other);
        assert(left[0] == start[0] && right[0] == start[0]);
        assert(left.skip(1) =~= tail + seq![a] + rest);
        assert(right.skip(1) =~= tail + seq![b] + other);
        assert((start + rest)[0] == start[0]);
        assert((start + rest).skip(1) =~= tail + rest);
    } else {
        assert(left[0] == a && right[0] == b);
        assert(start + rest =~= rest);
    }
}

/// Two sequences of which each stands before the other are the same.
proof fn lemma_bytes_le_antisymmetric(a: Seq<u8>, b: Seq<u8>)
    requires
        bytes_le(a, b),
        bytes_le(b, a),
    ensures
        a == b,
    decreases a.len(),
{
    if a.len() > 0 && b.len() > 0 {
        lemma_bytes_le_antisymmetric(a.skip(1), b.skip(1));
        assert(a =~= seq![a[0]] + a.skip(1));
        assert(b =~= seq![b[0]] + b.skip(1));
    } else {
        assert(a =~= b);
    }
}

/// A catalog has at most one least name, and it stands before every other name.
pub proof fn least_name_is_the_only_one(
    name: Seq<char>,
    other: Seq<char>,
    entries: Seq<IndexEntry>,
)
    requires
        is_least_name(name, entries),
    ensures
        is_least_name(other, entries) ==> encode_utf8(name) == encode_utf8(other),
        forall|i: int|
            0 <= i < entries.len() && text_le((#[trigger] entries[i]).name@, name) ==> encode_utf8(
                entries[i].name@,
            ) == encode_utf8(name),
{
    assert forall|i: int|
        0 <= i < entries.len() && text_le((#[trigger] entries[i]).name@, name) implies encode_utf8(
        entries[i].name@,
    ) == encode_utf8(name) by {
        lemma_bytes_le_antisymmetric(encode_utf8(entries[i].name@), encode_utf8(name));
    }
    if is_least_name(other, entries) {
        let i = choose|i: int| 0 <= i < entries.len() && (#[trigger] entries[i]).name@ == other;
        let j = choose|j: int| 0 <= j < entries.len() && (#[trigger] entries[j]).name@ == name;
        assert(text_le(other, entries[j].name@));
        assert(text_le(entries[i].name@, name));
    }
}

/// The bytes of frames come one after the other, in the order of the frames.
pub proof fn frames_are_joined_in_order(first: Seq<LogEventFrame>, frame: LogEventFrame, rest: Seq<
    LogEventFrame,
>)
    ensures
        joined_data(seq![frame]) == frame.data@,
        joined_data(first + rest) == joined_data(first) + joined_data(rest),
    decreases rest.len(),
{
    let one = seq![frame];
    assert(one.drop_last() =~= Seq::<LogEventFrame>::empty());
    assert(joined_data(one.drop_last()) =~= Seq::<u8>::empty());
    assert(joined_data(one) =~= frame.data@);
    if rest.len() > 0 {
        frames_are_joined_in_order(first, frame, rest.drop_last());
        assert((first + rest).drop_last() =~= first + rest.drop_last());
        assert((first + rest).last() == rest.last());
        assert(joined_data(first + rest) =~= joined_data(first) + joined_data(rest));
    } else {
        assert(first + rest =~= first);
        assert(joined_data(first) + joined_data(rest) =~= joined_data(first));
    }
}

/// What the demo has learnt in a state, while its session is open.
pub open spec fn progress_of(state: DemoState) -> Option<DemoProgress> {
    match state {
        DemoState::Opening => None,
        DemoState::Done(_) => None,
        DemoState::Indexing(p) => Some(p),
        DemoState::Describing(p) => Some(p),
        DemoState::Starting(p) => Some(p),
        DemoState::Polling(p) => Some(p),
        DemoState::Cancelling(p, _) => Some(p),
        DemoState::Attaching(p) => Some(p),
        DemoState::Printing(p) => Some(p),
        DemoState::Closing(p, _) => Some(p),
    }
}

/// Every call bears the id and the token of the session that was opened, and
/// every call about a job the id of the job that was started. The log is replayed
/// from its start.
pub proof fn calls_bear_the_session_and_the_job(
    before: DemoState,
    event: DemoEvent,
    timeout: u128,
    interval: u128,
    after: DemoState,
    action: DemoAction,
    session: SessionOpenResponse,
)
    requires
        demo_stepped(before, event, timeout, interval, after, action),
        match progress_of(before) {
            Some(p) => p.session == session,
            None => event matches DemoEvent::Opened { session: opened, ms } && opened == session,
        },
    ensures
        progress_of(after) matches Some(p) ==> p.session == session,
        action matches DemoAction::Index(req) ==> req.session_id == session.session_id
            && req.cap_token == session.cap_token,
        action matches DemoAction::Describe(req) ==> req.session_id == session.session_id
            && req.cap_token == session.cap_token,
        action matches DemoAction::Start(req) ==> req.session_id == session.session_id
            && req.cap_token == session.cap_token,
        action matches DemoAction::Poll(req) ==> req.session_id == session.session_id
            && req.cap_token == session.cap_token,
        action matches DemoAction::Cancel(req) ==> req.session_id == session.session_id
            && req.cap_token == session.cap_token,
        action matches DemoAction::Attach(req) ==> req.session_id == session.session_id
            && req.cap_token == session.cap_token && req.from_offset == 0,
        action matches DemoAction::Close(req) ==> req.session_id == session.session_id
            && req.cap_token == session.cap_token,
        action matches DemoAction::Poll(req) ==> req.job_id == progress_of(after)->0.job_id,
        action matches DemoAction::Cancel(req) ==> req.job_id == progress_of(before)->0.job_id,
        action matches DemoAction::Attach(req) ==> req.job_id == progress_of(before)->0.job_id,
        before is Starting && event is Started ==> progress_of(after)->0.job_id == event->job_id,
        before is Polling && !(after is Closing) ==> progress_of(after)->0.job_id == progress_of(
            before,
        )->0.job_id,
{
}

/// The demo ends well only where its job exited with code 0, its log held the
/// marker, and nothing failed: each stage on the way to success is left for the
/// next only so.
pub proof fn success_is_reached_stage_by_stage(
    before: DemoState,
    event: DemoEvent,
    timeout: u128,
    interval: u128,
    after: DemoState,
    action: DemoAction,
)
    requires
        demo_stepped(before, event, timeout, interval, after, action),
    ensures
        after is Attaching ==> before is Attaching || (before is Polling && (event
            matches DemoEvent::Polled { status, elapsed, ms } && status@ == StatusView::Exited {
            code: 0,
        })),
        after is Printing ==> before is Printing || (before is Attaching && (event
            matches DemoEvent::Attached { frames, ms, total_ms } && holds_text(
            trim_end(lossy_text(joined_data(frames@))),
            RUNTIME_MARKER@,
        ))),
        (after matches DemoState::Closing(_, outcome) && outcome is Ok) ==> before is Closing || (
        before is Printing && event is Printed),
        (after matches DemoState::Done(outcome) && outcome is Ok) ==> before is Done || (
        before is Closing && event is Closed && before->Closing_1 is Ok),
        before matches DemoState::Closing(_, Err(reason)) ==> after == before || after
            == DemoState::Done(Err(reason)),
        event is Failed && before !is Done ==> after == before || match after {
            DemoState::Cancelling(_, _) => true,
            DemoState::Closing(_, outcome) => outcome is Err,
            DemoState::Done(outcome) => outcome is Err,
            _ => false,
        },
{
}

/// Each call's time is kept as that of its own step, and the earlier ones stay as
/// they were; so do the facts that were learnt.
pub proof fn each_step_keeps_its_own_time(
    before: DemoState,
    event: DemoEvent,
    timeout: u128,
    interval: u128,
    after: DemoState,
    action: DemoAction,
)
    requires
        demo_stepped(before, event, timeout, interval, after, action),
    ensures
        before is Opening ==> (event matches DemoEvent::Opened { session, ms } ==> progress_of(
            after,
        )->0.steps.session_open_ms == ms),
        after is Describing && before is Indexing ==> {
            let (p, q) = (before->Indexing_0, after->Describing_0);
            &&& event is Indexed && q.steps.index_ms == event->Indexed_ms
            &&& q.steps.session_open_ms == p.steps.session_open_ms
            &&& q.catalog_count == event->index.entries.len()
        },
        after is Starting && before is Describing ==> {
            let (p, q) = (before->Describing_0, after->Starting_0);
            &&& event is Described && q.steps.describe_ms == event->Described_ms
            &&& q.steps.session_open_ms == p.steps.session_open_ms
            &&& q.steps.index_ms == p.steps.index_ms
            &&& q.signature == event->detail.signature
            &&& q.name == p.name && q.catalog_count == p.catalog_count
        },
        after is Polling && before is Starting ==> {
            let (p, q) = (before->Starting_0, after->Polling_0);
            &&& event is Started && q.steps.job_start_ms == event->Started_ms
            &&& q.steps.session_open_ms == p.steps.session_open_ms
            &&& q.steps.index_ms == p.steps.index_ms
            &&& q.steps.describe_ms == p.steps.describe_ms
            &&& q.name == p.name && q.catalog_count == p.catalog_count && q.signature
                == p.signature
        },
        after is Attaching && before is Polling ==> {
            let (p, q) = (before->Polling_0, after->Attaching_0);
            &&& event is Polled && q.steps.job_status_poll_ms == event->Polled_ms
            &&& q.steps.session_open_ms == p.steps.session_open_ms
            &&& q.steps.index_ms == p.steps.index_ms
            &&& q.steps.describe_ms == p.steps.describe_ms
            &&& q.steps.job_start_ms == p.steps.job_start_ms
            &&& q.name == p.name && q.catalog_count == p.catalog_count && q.signature
                == p.signature
            &&& p.polls < u64::MAX ==> q.polls == p.polls + 1
        },
        action matches DemoAction::Print(m) ==> {
            let p = before->Attaching_0;
            &&& event is Attached && m.steps.job_attach_ms == event->Attached_ms && m.total_ms
                == event->total_ms
            &&& m.steps.session_open_ms == p.steps.session_open_ms
            &&& m.steps.index_ms == p.steps.index_ms
            &&& m.steps.describe_ms == p.steps.describe_ms
            &&& m.steps.job_start_ms == p.steps.job_start_ms
            &&& m.steps.job_status_poll_ms == p.steps.job_status_poll_ms
            &&& m.described_capability == p.name && m.described_signature == p.signature
            &&& m.catalog_count == p.catalog_count && m.status_poll_count == p.polls
            &&& m.terminal_job_status == p.label
            &&& m.attach_bytes as nat == joined_data(event->frames@).len()
        },
{
}

/// The demo's job prints the marker that its log is looked through for, in the
/// workspace itself and with no grants of its own, in the demo's session.
pub proof fn job_prints_the_marker(req: JobStartRequest, session: SessionOpenResponse)
    requires
        starts_the_job(req, session),
    ensures
        req.payload matches JobPayload::Command { command } && begins_with(command@, "printf "@)
            && holds_text(command@, RUNTIME_MARKER@),
        req.cwd is None,
        req.capabilities@.len() == 0,
        req.session_id == session.session_id,
        req.cap_token == session.cap_token,
{
    let command = req.payload->command@;
    reveal_strlit("printf 'axp-runtime-smoke\\n'");
    reveal_strlit("axp-runtime-smoke");
    reveal_strlit("printf ");
    assert(command.take(7) =~= "printf "@);
    assert(command.subrange(8, 25) =~= RUNTIME_MARKER@);
    assert(stands_at(command, RUNTIME_MARKER@, 8));
}

} // verus!
