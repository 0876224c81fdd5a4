//! Attached log streams: a replay of what was logged, then the live output.

use std::collections::VecDeque;
use std::sync::Arc;

use vstd::prelude::*;

use crate::error::{Error, ErrorView};
use crate::job::engine::{owns, JobEngine};
use crate::job::log::{
    event_views, numbered, suffix_from, JobReplayLog, LogEvent, LogEventView, LogStream,
};
use crate::job::status::{terminal, StatusView};
use crate::job::store::Job;
use crate::octets::bytes_slice;
use crate::proto::ids::JobId;
use crate::proto::job::{JobAttachRequest, LogEventFrame, LogEventFrameView, LogStreamProto};
use crate::provider::Provider;
use crate::time::{epoch_millis, millis_round_down};

verus! {

/// The wire form of a stream.
pub open spec fn wire_stream(s: LogStream) -> LogStreamProto {
    match s {
        LogStream::Stdout => LogStreamProto::Stdout,
        LogStream::Stderr => LogStreamProto::Stderr,
    }
}

/// The frame of a logged event.
pub open spec fn frame_of(job_id: Seq<char>, event: LogEventView) -> LogEventFrameView {
    LogEventFrameView {
        job_id,
        seq: event.seq as u64,
        stream: wire_stream(event.stream),
        data: event.data,
        ts_millis: epoch_millis(event.timestamp.nanos_since_epoch as int) as u64,
    }
}

/// The wire form of a stream.
pub fn stream_to_proto(s: LogStream) -> (r: LogStreamProto)
    ensures
        r == wire_stream(s),
{
    match s {
        LogStream::Stdout => LogStreamProto::Stdout,
        LogStream::Stderr => LogStreamProto::Stderr,
    }
}

/// The frame of a logged event.
pub fn event_to_frame(job_id: &JobId, event: &LogEvent) -> (r: LogEventFrame)
    ensures
        r@ == frame_of(job_id@, event@),
{
    LogEventFrame {
        job_id: job_id.clone(),
        seq: event.seq,
        stream: stream_to_proto(event.stream),
        data: vstd::slice::slice_to_vec(bytes_slice(&event.data)),
        ts_millis: event.timestamp.millis_since_epoch(),
    }
}

/// What an attached stream gives next.
#[derive(Debug)]
pub enum NextFrame {
    /// A frame.
    Frame(LogEventFrame),
    /// Nothing now: the job still runs, and all that it logged was given.
    Wait,
    /// Nothing any more: the job has ended, and all that it logged was given.
    End,
}

/// Whether a stream that stands at a position of a log gives this and stands at
/// another then: the event at its position, or where there is none, whether one
/// may still come.
pub open spec fn next_given(
    job_id: Seq<char>,
    log: Seq<LogEventView>,
    status: StatusView,
    before: int,
    after: int,
    r: NextFrame,
) -> bool {
    if before < log.len() {
        &&& r matches NextFrame::Frame(frame) && frame@ == frame_of(job_id, log[before])
        &&& after == before + 1
    } else {
        &&& after == before
        &&& if terminal(status) {
            r is End
        } else {
            r is Wait
        }
    }
}

/// A view over the log of one job that can be attached at any position.
#[derive(Debug)]
pub struct JobLogStream {
    job_id: JobId,
    notify: Arc<tokio::sync::Notify>,
    cursor: u64,
    pending: VecDeque<LogEventFrame>,
}

impl JobLogStream {
    /// The job.
    pub closed spec fn job(&self) -> Seq<char> {
        self.job_id@
    }

    /// The position of the event that is given next.
    pub closed spec fn position(&self) -> int {
        self.cursor - self.pending@.len()
    }

    /// The wake signal of the log.
    pub closed spec fn signal(&self) -> Arc<tokio::sync::Notify> {
        self.notify
    }

    /// Whether the stream follows a log: what it holds back are frames of that
    /// log, from its position on.
    pub closed spec fn follows(&self, log: Seq<LogEventView>) -> bool {
        &&& self.pending@.len() <= self.cursor
        &&& self.pending@.len() > 0 ==> self.cursor <= log.len()
        &&& forall|i: int|
            0 <= i < self.pending@.len() ==> (#[trigger] self.pending@[i])@ == frame_of(
                self.job(),
                log[self.position() + i],
            )
    }

    /// A stream over the log of a job from a position on.
    pub fn attached(job: &Job, from_offset: u64) -> (r: Self)
        requires
            job.log_buffer.wf(),
        ensures
            r.job() == job.id@,
            r.position() == from_offset,
            r.signal() == job.log_buffer.signal(),
            r.follows(job.log_buffer.log()),
    {
        JobLogStream {
            job_id: job.id.clone(),
            notify: job.log_buffer.subscribe(),
            cursor: from_offset,
            pending: VecDeque::new(),
        }
    }

    /// The wake signal that fires when there may be something new.
    pub fn wake_signal(&self) -> (r: Arc<tokio::sync::Notify>)
        ensures
            r == self.signal(),
    {
        self.notify.clone()
    }

    /// The next frame of the job, as the job stands now.
    ///
    /// Every event from the attached position on is given exactly once and in
    /// order; the end comes when the job has ended and all was given.
    pub fn next(&mut self, job: &Job) -> (r: NextFrame)
        requires
            job.log_buffer.wf(),
            old(self).follows(job.log_buffer.log()),
        ensures
            final(self).follows(job.log_buffer.log()),
            final(self).job() == old(self).job(),
            final(self).signal() == old(self).signal(),
            next_given(
                old(self).job(),
                job.log_buffer.log(),
                job.status@,
                old(self).position(),
                final(self).position(),
                r,
            ),
    {
        let ghost log = job.log_buffer.log();
        let ghost start = self.position();
        if self.pending.len() == 0 {
            proof {
                job.log_buffer.log_is_bounded();
            }
            let logged: usize = job.log_buffer.len();
            let replay = job.log_buffer.replay_from(self.cursor);
            let events = replay.events();
            assert(event_views(events@).len() == suffix_from(log, start).len());
            let mut i: usize = 0;
            while i < events.len()
                invariant
                    events@.len() == suffix_from(log, start).len(),
                    i <= events@.len(),
                    log == job.log_buffer.log(),
                    numbered(log),
                    logged == log.len(),
                    event_views(events@) == suffix_from(log, start),
                    0 <= start,
                    self.cursor == start + i,
                    self.pending@.len() == i,
                    self.job() == old(self).job(),
                    self.notify == old(self).notify,
                    forall|k: int|
                        0 <= k < i ==> (#[trigger] self.pending@[k])@ == frame_of(
                            self.job(),
                            log[start + k],
                        ),
                decreases events@.len() - i,
            {
                assert(event_views(events@)[i as int] == suffix_from(log, start)[i as int]);
                assert(events@[i as int]@ == log[start + i]);
                let frame = event_to_frame(&self.job_id, &events[i]);
                self.pending.push_back(frame);
                self.cursor = events[i].seq + 1;
                i = i + 1;
            }
        }
        let ghost held = self.pending@;
        match self.pending.pop_front() {
            Some(frame) => {
                proof {
                    assert(frame == held[0]);
                    assert forall|k: int| 0 <= k < self.pending@.len() implies (
                    #[trigger] self.pending@[k])@ == frame_of(
                        self.job(),
                        log[self.position() + k],
                    ) by {
                        assert(self.pending@[k] == held[k + 1]);
                    }
                }
                NextFrame::Frame(frame)
            },
            None => {
                if job.status.is_terminal() {
                    NextFrame::End
                } else {
                    NextFrame::Wait
                }
            },
        }
    }

    /// A stream that follows a log follows it still when the log grows.
    pub proof fn following_survives_growth(
        &self,
        log: Seq<LogEventView>,
        grown: Seq<LogEventView>,
    )
        requires
            self.follows(log),
            log.is_prefix_of(grown),
        ensures
            self.follows(grown),
    {
        assert forall|i: int| 0 <= i < self.pending@.len() implies (
        #[trigger] self.pending@[i])@ == frame_of(self.job(), grown[self.position() + i]) by {
            assert(grown.subrange(0, log.len() as int)[self.position() + i] == log[self.position()
                + i]);
        }
    }
}

impl<P: Provider> JobEngine<P> {
    /// Attach to the log of a job that the caller owns, from a position on.
    pub fn attach(&self, req: &JobAttachRequest) -> (r: Result<JobLogStream, Error>)
        requires
            self.wf(),
        ensures
            match r {
                Ok(stream) => {
                    let job = self@.jobs.jobs[req.job_id@];
                    &&& owns(self@, req.session_id@, req.job_id@)
                    &&& stream.job() == job.id@
                    &&& stream.position() == req.from_offset
                    &&& stream.signal() == job.log_buffer.signal()
                    &&& stream.follows(job.log_buffer.log())
                },
                Err(e) => !owns(self@, req.session_id@, req.job_id@) && e@
                    == ErrorView::JobNotFound(req.job_id@),
            },
    {
        match self.lookup_owned(&req.session_id, &req.job_id) {
            Err(e) => Err(e),
            Ok(job) => Ok(JobLogStream::attached(job, req.from_offset)),
        }
    }
}

/// The wire form of a stream keeps which stream it is, so a client can tell the
/// two streams of a job apart.
pub proof fn streams_stay_apart_on_the_wire(a: LogStream, b: LogStream)
    ensures
        wire_stream(a) == LogStreamProto::Stdout <==> a == LogStream::Stdout,
        wire_stream(a) == LogStreamProto::Stderr <==> a == LogStream::Stderr,
        wire_stream(a) == wire_stream(b) ==> a == b,
{
}

/// A frame loses nothing of its event but what of the time is finer than a
/// millisecond: it names the job and the position, holds the very bytes and tells
/// the stream.
pub proof fn frame_tells_its_event(job_id: Seq<char>, event: LogEventView)
    requires
        0 <= event.seq <= u64::MAX,
    ensures
        frame_of(job_id, event).job_id == job_id,
        frame_of(job_id, event).seq == event.seq,
        frame_of(job_id, event).data == event.data,
        frame_of(job_id, event).stream == LogStreamProto::Stdout <==> event.stream
            == LogStream::Stdout,
        0 <= event.timestamp.nanos_since_epoch < 1_000_000 * 0x1_0000_0000_0000_0000 ==> frame_of(
            job_id,
            event,
        ).ts_millis * 1_000_000 <= event.timestamp.nanos_since_epoch < (frame_of(
            job_id,
            event,
        ).ts_millis + 1) * 1_000_000,
{
    if 0 <= event.timestamp.nanos_since_epoch < 1_000_000 * 0x1_0000_0000_0000_0000 {
        millis_round_down(event.timestamp.nanos_since_epoch as int);
    }
}

/// An attached stream gives every event from its position on once and in order:
/// a frame exactly where the log reaches further, namely that of the event at its
/// position with its bytes and stream, and it moves on by that one event. It ends
/// only once the job is over and all was given.
pub proof fn streams_give_every_event_once(
    job_id: Seq<char>,
    log: Seq<LogEventView>,
    status: StatusView,
    before: int,
    after: int,
    r: NextFrame,
)
    requires
        next_given(job_id, log, status, before, after, r),
        0 <= before,
        numbered(log),
        log.len() <= u64::MAX,
    ensures
        r is Frame <==> before < log.len(),
        r matches NextFrame::Frame(frame) ==> {
            &&& after == before + 1
            &&& frame.job_id@ == job_id
            &&& frame.seq == before
            &&& frame.data@ == log[before].data
            &&& frame.stream == LogStreamProto::Stdout <==> log[before].stream == LogStream::Stdout
        },
        !(r is Frame) ==> after == before,
        r is End <==> before >= log.len() && (status is Exited || status is Killed
            || status is Failed),
        r is Wait <==> before >= log.len() && (status is Pending || status is Running),
{
}

} // verus!
