//! Draining a running job: what each event does while the output of a process
//! is read, and with which status the job ends.
//!
//! After a cancellation reading goes on until both pipes are at their end, so
//! no output that was written is lost. Output that the log has no room for ends
//! the job.

use vstd::prelude::*;
use vstd::string::*;

use crate::error::{error_text, Error};
use crate::job::engine::{line_bytes, output_logged, EngineView, JobEngine};
use crate::job::log::{
    byte_total, has_room, placed, ChunkView, JobReplayLog, LogEventView, LogStream,
};
use crate::job::status::{JobStatus, StatusView};
use crate::octets::bytes_of;
use crate::proto::ids::JobId;
use crate::provider::Provider;
use crate::time::Timestamp;

verus! {

/// Where the draining of a job stands.
#[derive(Debug, Clone, Copy, PartialEq, Eq, Structural)]
pub struct DrainState {
    /// Standard output is at its end.
    pub out_done: bool,
    /// Standard error is at its end.
    pub err_done: bool,
    /// The job was cancelled.
    pub cancelled: bool,
    /// Output arrived that the log had no room for.
    pub overflowed: bool,
}

/// What the caller waited for and got.
pub enum DrainEvent {
    /// The cancellation signal fired, or its sender is gone.
    Cancel,
    /// A read of a pipe gave bytes.
    Data {
        /// The pipe that was read.
        stream: LogStream,
        /// The bytes.
        data: bytes::Bytes,
    },
    /// A read of a pipe found its end, or failed.
    End {
        /// The pipe that was read.
        stream: LogStream,
    },
}

/// What the caller has to do next.
#[derive(Debug, Clone, Copy, PartialEq, Eq, Structural)]
pub enum DrainAction {
    /// Go on waiting.
    Continue,
    /// Kill the process and go on waiting.
    Kill,
}

/// What an event says.
#[verifier::ext_equal]
pub enum DrainEventView {
    Cancel,
    Data { stream: LogStream, data: Seq<u8> },
    End { stream: LogStream },
}

impl View for DrainEvent {
    type V = DrainEventView;

    open spec fn view(&self) -> DrainEventView {
        match self {
            DrainEvent::Cancel => DrainEventView::Cancel,
            DrainEvent::Data { stream, data } => DrainEventView::Data {
                stream: *stream,
                data: bytes_of(*data),
            },
            DrainEvent::End { stream } => DrainEventView::End { stream: *stream },
        }
    }
}

/// The state before the first event; a pipe that is not there is at its end.
pub open spec fn drain_begin(has_stdout: bool, has_stderr: bool) -> DrainState {
    DrainState {
        out_done: !has_stdout,
        err_done: !has_stderr,
        cancelled: false,
        overflowed: false,
    }
}

/// Whether both pipes are at their end, so that the process is waited for.
pub open spec fn drained(state: DrainState) -> bool {
    state.out_done && state.err_done
}

/// The state once a pipe is at its end.
pub open spec fn with_end(state: DrainState, stream: LogStream) -> DrainState {
    match stream {
        LogStream::Stdout => DrainState { out_done: true, ..state },
        LogStream::Stderr => DrainState { err_done: true, ..state },
    }
}

/// The state after an event; `logged` says whether the bytes of a read found
/// room in the log.
pub open spec fn drain_next(state: DrainState, event: DrainEventView, logged: bool) -> DrainState {
    match event {
        DrainEventView::Cancel => DrainState { cancelled: true, ..state },
        DrainEventView::End { stream } => with_end(state, stream),
        DrainEventView::Data { .. } => if logged {
            state
        } else {
            DrainState { overflowed: true, out_done: true, err_done: true, ..state }
        },
    }
}

/// What has to be done after an event.
pub open spec fn drain_action(event: DrainEventView, logged: bool) -> DrainAction {
    match event {
        DrainEventView::Cancel => DrainAction::Kill,
        DrainEventView::End { .. } => DrainAction::Continue,
        DrainEventView::Data { .. } => if logged {
            DrainAction::Continue
        } else {
            DrainAction::Kill
        },
    }
}

/// What came of waiting for a process.
#[derive(Debug)]
pub enum WaitOutcome {
    /// It exited with this code.
    Code(i32),
    /// It ended without a code, by a signal.
    NoCode,
    /// Waiting failed.
    Failed(String),
}

/// The status with which a drained job ends.
pub open spec fn final_status(state: DrainState, waited: WaitOutcome) -> StatusView {
    if state.overflowed {
        StatusView::Failed { reason: "log buffer overflow"@ }
    } else if state.cancelled {
        StatusView::Killed
    } else {
        match waited {
            WaitOutcome::Code(code) => StatusView::Exited { code },
            WaitOutcome::NoCode => StatusView::Killed,
            WaitOutcome::Failed(reason) => StatusView::Failed { reason: reason@ },
        }
    }
}

impl DrainState {
    /// The state before the first event.
    pub fn begin(has_stdout: bool, has_stderr: bool) -> (r: DrainState)
        ensures
            r == drain_begin(has_stdout, has_stderr),
    {
        DrainState {
            out_done: !has_stdout,
            err_done: !has_stderr,
            cancelled: false,
            overflowed: false,
        }
    }

    /// Whether both pipes are at their end.
    pub fn is_drained(&self) -> (r: bool)
        ensures
            r == drained(*self),
    {
        self.out_done && self.err_done
    }

    /// The status with which a drained job ends.
    pub fn final_status(&self, waited: WaitOutcome) -> (r: JobStatus)
        ensures
            r@ == final_status(*self, waited),
    {
        if self.overflowed {
            JobStatus::Failed { reason: "log buffer overflow".to_owned() }
        } else if self.cancelled {
            JobStatus::Killed
        } else {
            match waited {
                WaitOutcome::Code(code) => JobStatus::Exited { code },
                WaitOutcome::NoCode => JobStatus::Killed,
                WaitOutcome::Failed(reason) => JobStatus::Failed { reason },
            }
        }
    }
}

/// What came of running the component of a code job.
#[derive(Debug)]
pub enum CodeOutcome {
    /// The job was cancelled; the run was interrupted.
    Cancelled,
    /// The run ended, with the text that the component returned, if any.
    Finished(Option<String>),
    /// The run failed.
    Failed(String),
}

/// The chunk of a text that is logged as a line.
pub open spec fn line_chunk(stream: LogStream, text: Seq<char>, now: Timestamp) -> ChunkView {
    ChunkView { stream, data: line_bytes(text), timestamp: now }
}

/// Whether the end of a code job's run gave this status, and the state changed by
/// exactly what was logged of it.
pub open spec fn code_ended(
    before: EngineView,
    after: EngineView,
    job_id: Seq<char>,
    ended: CodeOutcome,
    now: Timestamp,
    status: StatusView,
) -> bool {
    match ended {
        CodeOutcome::Cancelled => after == before && status == StatusView::Killed,
        CodeOutcome::Finished(None) => after == before && status == (StatusView::Exited {
            code: 0,
        }),
        CodeOutcome::Finished(Some(text)) => exists|logged: Result<(), Error>| {
            &&& #[trigger] output_logged(
                before,
                after,
                job_id,
                line_chunk(LogStream::Stdout, text@, now),
                logged,
            )
            &&& match logged {
                Ok(_) => status == (StatusView::Exited { code: 0 }),
                Err(e) => status == (StatusView::Failed { reason: error_text(e@) }),
            }
        },
        CodeOutcome::Failed(reason) => {
            &&& status == (StatusView::Failed { reason: reason@ })
            &&& exists|logged: Result<(), Error>| #[trigger]
                output_logged(
                    before,
                    after,
                    job_id,
                    line_chunk(LogStream::Stderr, reason@, now),
                    logged,
                )
        },
    }
}

impl<P: Provider> JobEngine<P> {
    /// Take in one event of a running job.
    pub fn drain_step(
        &mut self,
        job_id: &JobId,
        state: DrainState,
        event: DrainEvent,
        now: Timestamp,
    ) -> (r: (DrainState, DrainAction))
        requires
            old(self).wf(),
        ensures
            final(self).wf(),
            final(self).registry == old(self).registry,
            old(self)@.jobs.jobs.contains_key(job_id@) ==> (DrainRun {
                state: r.0,
                log: final(self)@.jobs.jobs[job_id@].log_buffer.log(),
            }) == drain_event(
                DrainRun { state, log: old(self)@.jobs.jobs[job_id@].log_buffer.log() },
                event@,
                old(self)@.jobs.jobs[job_id@].log_buffer.cap(),
                now,
            ),
            match event@ {
                DrainEventView::Data { stream, data } => exists|logged: Result<(), Error>| {
                    &&& #[trigger] output_logged(
                        old(self)@,
                        final(self)@,
                        job_id@,
                        ChunkView { stream, data, timestamp: now },
                        logged,
                    )
                    &&& r.0 == drain_next(state, event@, logged is Ok)
                    &&& r.1 == drain_action(event@, logged is Ok)
                },
                _ => {
                    &&& final(self)@ == old(self)@
                    &&& r.0 == drain_next(state, event@, true)
                    &&& r.1 == drain_action(event@, true)
                },
            },
    {
        match event {
            DrainEvent::Cancel => (
                DrainState { cancelled: true, ..state },
                DrainAction::Kill,
            ),
            DrainEvent::End { stream } => match stream {
                LogStream::Stdout => (
                    DrainState { out_done: true, ..state },
                    DrainAction::Continue,
                ),
                LogStream::Stderr => (
                    DrainState { err_done: true, ..state },
                    DrainAction::Continue,
                ),
            },
            DrainEvent::Data { stream, data } => {
                let logged = self.push_log(job_id, stream, data, now);
                assert(output_logged(
                    old(self)@,
                    self@,
                    job_id@,
                    ChunkView { stream, data: bytes_of(data), timestamp: now },
                    logged,
                ));
                match logged {
                    Ok(_) => (state, DrainAction::Continue),
                    Err(_) => (
                        DrainState { overflowed: true, out_done: true, err_done: true, ..state },
                        DrainAction::Kill,
                    ),
                }
            },
        }
    }

    /// Take in the end of a code job's run: what it returned goes to standard
    /// output, why it failed to standard error. The status of the job comes back.
    pub fn complete_code(&mut self, job_id: &JobId, ended: CodeOutcome, now: Timestamp) -> (r:
        JobStatus)
        requires
            old(self).wf(),
        ensures
            final(self).wf(),
            final(self).registry == old(self).registry,
            code_ended(old(self)@, final(self)@, job_id@, ended, now, r@),
    {
        match ended {
            CodeOutcome::Cancelled => JobStatus::Killed,
            CodeOutcome::Finished(None) => JobStatus::Exited { code: 0 },
            CodeOutcome::Finished(Some(text)) => {
                let logged = self.push_text_result(job_id, LogStream::Stdout, text.as_str(), now);
                assert(output_logged(
                    old(self)@,
                    self@,
                    job_id@,
                    line_chunk(LogStream::Stdout, text@, now),
                    logged,
                ));
                match logged {
                    Ok(_) => JobStatus::Exited { code: 0 },
                    Err(e) => JobStatus::Failed { reason: e.text() },
                }
            },
            CodeOutcome::Failed(reason) => {
                let logged = self.push_text_result(job_id, LogStream::Stderr, reason.as_str(), now);
                assert(output_logged(
                    old(self)@,
                    self@,
                    job_id@,
                    line_chunk(LogStream::Stderr, reason@, now),
                    logged,
                ));
                JobStatus::Failed { reason }
            },
        }
    }
}

/// Where the draining stands and what the log holds.
#[verifier::ext_equal]
pub struct DrainRun {
    pub state: DrainState,
    pub log: Seq<LogEventView>,
}

/// What one event does to the state and the log, under a byte cap.
pub open spec fn drain_event(run: DrainRun, event: DrainEventView, cap: usize, now: Timestamp) -> DrainRun {
    match event {
        DrainEventView::Data { stream, data } => {
            let logged = has_room(run.log, cap, data.len());
            DrainRun {
                state: drain_next(run.state, event, logged),
                log: if logged {
                    run.log.push(
                        placed(
                            ChunkView { stream, data, timestamp: now },
                            run.log.len() as int,
                        ),
                    )
                } else {
                    run.log
                },
            }
        },
        _ => DrainRun { state: drain_next(run.state, event, true), log: run.log },
    }
}

/// The run over a sequence of events, each at its time.
pub open spec fn drain_all(
    run: DrainRun,
    events: Seq<(DrainEventView, Timestamp)>,
    cap: usize,
) -> DrainRun
    decreases events.len(),
{
    if events.len() == 0 {
        run
    } else {
        drain_event(
            drain_all(run, events.drop_last(), cap),
            events.last().0,
            cap,
            events.last().1,
        )
    }
}

/// The chunks that a sequence of events brings, in order, as events of a log
/// that continues at position `from`.
pub open spec fn chunks_of(events: Seq<(DrainEventView, Timestamp)>, from: int) -> Seq<LogEventView>
    decreases events.len(),
{
    if events.len() == 0 {
        Seq::empty()
    } else {
        let before = chunks_of(events.drop_last(), from);
        match events.last().0 {
            DrainEventView::Data { stream, data } => before.push(
                placed(
                    ChunkView { stream, data, timestamp: events.last().1 },
                    from + before.len(),
                ),
            ),
            _ => before,
        }
    }
}

/// Output is never silently dropped: as long as no overflow was recorded, the
/// log holds all that was read, in the order in which it was read.
pub proof fn output_is_never_silently_dropped(
    run: DrainRun,
    events: Seq<(DrainEventView, Timestamp)>,
    cap: usize,
)
    requires
        !run.state.overflowed,
        !drain_all(run, events, cap).state.overflowed,
    ensures
        drain_all(run, events, cap).log == run.log + chunks_of(events, run.log.len() as int),
    decreases events.len(),
{
    if events.len() == 0 {
        assert(run.log + chunks_of(events, run.log.len() as int) =~= run.log);
    } else {
        let earlier = drain_all(run, events.drop_last(), cap);
        assert(!earlier.state.overflowed);
        output_is_never_silently_dropped(run, events.drop_last(), cap);
        assert(drain_all(run, events, cap).log =~= run.log + chunks_of(
            events,
            run.log.len() as int,
        ));
    }
}

/// An overflow ends the job: the pipes count as ended at once, and whatever the
/// process does, the job is marked failed.
pub proof fn overflow_fails_the_job(
    run: DrainRun,
    stream: LogStream,
    data: Seq<u8>,
    cap: usize,
    now: Timestamp,
    waited: WaitOutcome,
)
    requires
        !has_room(run.log, cap, data.len()),
    ensures
        ({
            let event = DrainEventView::Data { stream, data };
            let after = drain_event(run, event, cap, now);
            &&& drained(after.state)
            &&& after.log == run.log
            &&& drain_action(event, false) == DrainAction::Kill
            &&& final_status(after.state, waited) == (StatusView::Failed {
                reason: "log buffer overflow"@,
            })
        }),
{
}

/// A cancellation that no overflow follows ends as killed, whatever the process
/// returned and however much output still came.
pub proof fn cancellation_ends_as_killed(
    run: DrainRun,
    events: Seq<(DrainEventView, Timestamp)>,
    cap: usize,
    waited: WaitOutcome,
)
    requires
        run.state.cancelled,
        !drain_all(run, events, cap).state.overflowed,
    ensures
        final_status(drain_all(run, events, cap).state, waited) == StatusView::Killed,
    decreases events.len(),
{
    lemma_cancelled_stays(run, events, cap);
}

proof fn lemma_cancelled_stays(
    run: DrainRun,
    events: Seq<(DrainEventView, Timestamp)>,
    cap: usize,
)
    requires
        run.state.cancelled,
    ensures
        drain_all(run, events, cap).state.cancelled,
    decreases events.len(),
{
    if events.len() > 0 {
        lemma_cancelled_stays(run, events.drop_last(), cap);
    }
}

/// A job reports the exit code of its process and nobody else's: it ends as
/// exited with a code exactly where its process exited with that code, and it was
/// neither cancelled nor out of room.
pub proof fn exit_code_is_reported(state: DrainState, waited: WaitOutcome, code: i32)
    ensures
        final_status(state, waited) == (StatusView::Exited { code }) <==> !state.cancelled
            && !state.overflowed && waited == WaitOutcome::Code(code),
        !state.cancelled && !state.overflowed ==> final_status(state, WaitOutcome::Code(code)) == (
        StatusView::Exited { code }),
{
}

/// Processes that exit with different codes never end with the same status.
pub proof fn different_codes_end_differently(state: DrainState, a: i32, b: i32)
    requires
        !state.cancelled,
        !state.overflowed,
        a != b,
    ensures
        final_status(state, WaitOutcome::Code(a)) != final_status(state, WaitOutcome::Code(b)),
{
}

/// Every end is told for what it was: killed after a cancellation or a signal,
/// failed after an overflow or with the very reason for which waiting failed.
pub proof fn every_end_is_told_apart(state: DrainState, waited: WaitOutcome)
    ensures
        final_status(state, waited) is Killed <==> !state.overflowed && (state.cancelled
            || waited is NoCode),
        final_status(state, waited) is Failed <==> state.overflowed || (!state.cancelled
            && waited is Failed),
        final_status(state, waited) matches StatusView::Failed { reason } ==> (if state.overflowed {
            reason == "log buffer overflow"@
        } else {
            waited matches WaitOutcome::Failed(said) && said@ == reason
        }),
        !(final_status(state, waited) is Pending) && !(final_status(state, waited) is Running),
{
}

/// Whether some event of a run is the end of a pipe.
pub open spec fn ends_pipe(events: Seq<(DrainEventView, Timestamp)>, stream: LogStream) -> bool {
    exists|i: int|
        0 <= i < events.len() && (#[trigger] events[i]).0 == (DrainEventView::End { stream })
}

/// Whether some event of a run is a cancellation.
pub open spec fn cancels(events: Seq<(DrainEventView, Timestamp)>) -> bool {
    exists|i: int| 0 <= i < events.len() && (#[trigger] events[i]).0 == DrainEventView::Cancel
}

proof fn lemma_events_grow(events: Seq<(DrainEventView, Timestamp)>, stream: LogStream)
    requires
        events.len() > 0,
    ensures
        ends_pipe(events, stream) <==> ends_pipe(events.drop_last(), stream) || events.last().0 == (
        DrainEventView::End { stream }),
        cancels(events) <==> cancels(events.drop_last()) || events.last().0
            == DrainEventView::Cancel,
{
    let earlier = events.drop_last();
    assert forall|i: int| 0 <= i < earlier.len() implies #[trigger] earlier[i] == events[i] by {}
    if ends_pipe(earlier, stream) {
        let i = choose|i: int|
            0 <= i < earlier.len() && (#[trigger] earlier[i]).0 == (DrainEventView::End { stream });
        assert(events[i].0 == (DrainEventView::End { stream }));
    }
    if cancels(earlier) {
        let i = choose|i: int|
            0 <= i < earlier.len() && (#[trigger] earlier[i]).0 == DrainEventView::Cancel;
        assert(events[i].0 == DrainEventView::Cancel);
    }
    if ends_pipe(events, stream) {
        let i = choose|i: int|
            0 <= i < events.len() && (#[trigger] events[i]).0 == (DrainEventView::End { stream });
        if i < earlier.len() {
            assert(earlier[i].0 == (DrainEventView::End { stream }));
        }
    }
    if cancels(events) {
        let i = choose|i: int|
            0 <= i < events.len() && (#[trigger] events[i]).0 == DrainEventView::Cancel;
        if i < earlier.len() {
            assert(earlier[i].0 == DrainEventView::Cancel);
        }
    }
}

/// A process is waited for exactly once each pipe that it had is at its end, or
/// its output found no room: a cancellation alone does not stop the reading, and
/// the end of one pipe does not end the other. The job counts as cancelled exactly
/// where a cancellation came.
pub proof fn reading_goes_on_until_both_pipes_end(
    has_stdout: bool,
    has_stderr: bool,
    log: Seq<LogEventView>,
    events: Seq<(DrainEventView, Timestamp)>,
    cap: usize,
)
    ensures
        ({
            let begun = DrainRun { state: drain_begin(has_stdout, has_stderr), log };
            let state = drain_all(begun, events, cap).state;
            &&& state.cancelled <==> cancels(events)
            &&& drained(state) <==> state.overflowed || ((!has_stdout || ends_pipe(
                events,
                LogStream::Stdout,
            )) && (!has_stderr || ends_pipe(events, LogStream::Stderr)))
            &&& !state.overflowed ==> (state.out_done <==> !has_stdout || ends_pipe(
                events,
                LogStream::Stdout,
            ))
            &&& !state.overflowed ==> (state.err_done <==> !has_stderr || ends_pipe(
                events,
                LogStream::Stderr,
            ))
        }),
    decreases events.len(),
{
    if events.len() > 0 {
        reading_goes_on_until_both_pipes_end(
            has_stdout,
            has_stderr,
            log,
            events.drop_last(),
            cap,
        );
        lemma_events_grow(events, LogStream::Stdout);
        lemma_events_grow(events, LogStream::Stderr);
        let begun = DrainRun { state: drain_begin(has_stdout, has_stderr), log };
        lemma_overflow_ends_both(begun, events, cap);
        lemma_overflow_ends_both(begun, events.drop_last(), cap);
    }
}

proof fn lemma_overflow_ends_both(
    run: DrainRun,
    events: Seq<(DrainEventView, Timestamp)>,
    cap: usize,
)
    requires
        !run.state.overflowed,
    ensures
        drain_all(run, events, cap).state.overflowed ==> drain_all(run, events, cap).state.out_done
            && drain_all(run, events, cap).state.err_done,
    decreases events.len(),
{
    if events.len() > 0 {
        lemma_overflow_ends_both(run, events.drop_last(), cap);
    }
}

/// The process is killed exactly on a cancellation and on output that found no
/// room.
pub proof fn process_is_killed_only_for_cause(event: DrainEventView, logged: bool)
    ensures
        drain_action(event, logged) == DrainAction::Kill <==> event is Cancel || (event is Data
            && !logged),
{
}

/// A code job tells what its run came to: killed exactly where it was cancelled,
/// failed with the very reason for which the run failed, and otherwise exited with
/// 0. What it returned stands on standard output and why it failed on standard
/// error, each as a line at the end of the log, where there is room.
pub proof fn code_jobs_tell_their_end(
    before: EngineView,
    after: EngineView,
    job_id: Seq<char>,
    ended: CodeOutcome,
    now: Timestamp,
    status: StatusView,
)
    requires
        code_ended(before, after, job_id, ended, now, status),
        before.jobs.jobs.contains_key(job_id),
        before.jobs.jobs[job_id].log_buffer.log().len() <= u64::MAX,
    ensures
        status is Killed <==> ended is Cancelled,
        ended matches CodeOutcome::Failed(reason) ==> status == (StatusView::Failed {
            reason: reason@,
        }),
        ended == CodeOutcome::Finished(None) ==> status == (StatusView::Exited { code: 0 }),
        ({
            let was = before.jobs.jobs[job_id].log_buffer.log();
            let log = after.jobs.jobs[job_id].log_buffer.log();
            let room = before.jobs.jobs[job_id].log_buffer.cap() - byte_total(was);
            match ended {
                CodeOutcome::Finished(Some(text)) => if line_bytes(text@).len() <= room {
                    &&& status == (StatusView::Exited { code: 0 })
                    &&& log.len() == was.len() + 1
                    &&& log.last().stream == LogStream::Stdout
                    &&& log.last().data == line_bytes(text@)
                } else {
                    status is Failed && log == was
                },
                CodeOutcome::Failed(reason) => if line_bytes(reason@).len() <= room {
                    &&& log.len() == was.len() + 1
                    &&& log.last().stream == LogStream::Stderr
                    &&& log.last().data == line_bytes(reason@)
                } else {
                    log == was
                },
                _ => log == was,
            }
        }),
{
}

} // verus!
