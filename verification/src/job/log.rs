//! Append-only, replayable job log for stdout and stderr output.

use std::sync::Arc;

use vstd::prelude::*;

use crate::error::{Error, ErrorView};
use crate::octets::{bytes_len, bytes_of};
use crate::time::Timestamp;

verus! {

/// Position of an event within one job's log stream: the first is 0.
pub type LogSeq = u64;

/// Which standard stream a log chunk came from.
#[derive(Debug, Clone, Copy, PartialEq, Eq, Structural)]
pub enum LogStream {
    /// Standard output.
    Stdout,
    /// Standard error.
    Stderr,
}

/// One ordered log chunk from a job: raw bytes, not split into lines.
#[derive(Debug, PartialEq, Eq)]
pub struct LogEvent {
    /// Position of this event within the job's log stream.
    pub seq: LogSeq,
    /// Which standard stream the bytes came from.
    pub stream: LogStream,
    /// The raw bytes of this chunk.
    pub data: bytes::Bytes,
    /// Wall-clock time at which the chunk was recorded.
    pub timestamp: Timestamp,
}

/// A log event before the replay log assigns its position.
#[derive(Debug, Clone, PartialEq, Eq)]
pub struct AppendLogEvent {
    /// Which standard stream the bytes came from.
    pub stream: LogStream,
    /// The raw bytes of this chunk.
    pub data: bytes::Bytes,
    /// Wall-clock time at which the chunk was recorded.
    pub timestamp: Timestamp,
}

/// What a log chunk says before it has a position.
#[verifier::ext_equal]
pub struct ChunkView {
    pub stream: LogStream,
    pub data: Seq<u8>,
    pub timestamp: Timestamp,
}

/// What a log event says.
#[verifier::ext_equal]
pub struct LogEventView {
    pub seq: int,
    pub stream: LogStream,
    pub data: Seq<u8>,
    pub timestamp: Timestamp,
}

impl View for LogEvent {
    type V = LogEventView;

    open spec fn view(&self) -> LogEventView {
        LogEventView {
            seq: self.seq as int,
            stream: self.stream,
            data: bytes_of(self.data),
            timestamp: self.timestamp,
        }
    }
}

impl View for AppendLogEvent {
    type V = ChunkView;

    open spec fn view(&self) -> ChunkView {
        ChunkView { stream: self.stream, data: bytes_of(self.data), timestamp: self.timestamp }
    }
}

impl Clone for LogEvent {
    fn clone(&self) -> (r: Self)
        ensures
            r@ == self@,
    {
        LogEvent {
            seq: self.seq,
            stream: self.stream,
            data: self.data.clone(),
            timestamp: self.timestamp,
        }
    }
}

/// A chunk at a position.
pub open spec fn placed(chunk: ChunkView, seq: int) -> LogEventView {
    LogEventView { seq, stream: chunk.stream, data: chunk.data, timestamp: chunk.timestamp }
}

/// The events of a slice or vector, each by what it says.
pub open spec fn event_views(events: Seq<LogEvent>) -> Seq<LogEventView> {
    Seq::new(events.len(), |i: int| events[i]@)
}

/// The number of data bytes that a run of events holds.
pub open spec fn byte_total(log: Seq<LogEventView>) -> nat
    decreases log.len(),
{
    if log.len() == 0 {
        0
    } else {
        byte_total(log.drop_last()) + log.last().data.len()
    }
}

/// Every event stands at its own position.
pub open spec fn numbered(log: Seq<LogEventView>) -> bool {
    forall|i: int| 0 <= i < log.len() ==> (#[trigger] log[i]).seq == i
}

/// Whether a log takes a chunk of `len` bytes under a byte cap.
pub open spec fn has_room(log: Seq<LogEventView>, cap: usize, len: nat) -> bool {
    byte_total(log) + len <= cap
}

/// The events from position `from` on.
pub open spec fn suffix_from(log: Seq<LogEventView>, from: int) -> Seq<LogEventView> {
    if from >= log.len() {
        Seq::empty()
    } else {
        log.skip(from)
    }
}

/// What an append does: it succeeds exactly where the cap leaves room, gives
/// the chunk the next position and puts it last; otherwise the log stays.
pub open spec fn appended(
    before: Seq<LogEventView>,
    after: Seq<LogEventView>,
    cap: usize,
    chunk: ChunkView,
    r: Result<LogSeq, Error>,
) -> bool {
    match r {
        Ok(seq) => {
            &&& has_room(before, cap, chunk.data.len())
            &&& seq == before.len()
            &&& after == before.push(placed(chunk, before.len() as int))
        },
        Err(e) => {
            &&& !has_room(before, cap, chunk.data.len())
            &&& e@ == ErrorView::LogBufferOverflow { cap }
            &&& after == before
        },
    }
}

/// Default log byte cap: 64 MiB.
pub const DEFAULT_LOG_BYTE_CAP: usize = 67_108_864;

/// The events of a replay: borrowed from the log, or a batch of its own.
#[derive(Debug)]
enum ReplayEvents<'a> {
    Borrowed(&'a [LogEvent]),
    Owned(Vec<LogEvent>),
}

/// Replay result returned by a [`JobReplayLog`].
#[derive(Debug)]
pub struct LogReplay<'a> {
    events: ReplayEvents<'a>,
}

impl<'a> View for LogReplay<'a> {
    type V = Seq<LogEventView>;

    closed spec fn view(&self) -> Seq<LogEventView> {
        match self.events {
            ReplayEvents::Borrowed(events) => event_views(events@),
            ReplayEvents::Owned(events) => event_views(events@),
        }
    }
}

impl<'a> Clone for LogReplay<'a> {
    fn clone(&self) -> (r: Self)
        ensures
            r@ == self@,
    {
        match &self.events {
            ReplayEvents::Borrowed(events) => LogReplay { events: ReplayEvents::Borrowed(*events) },
            ReplayEvents::Owned(events) => {
                let copies = events.clone();
                assert(event_views(copies@) =~= event_views(events@));
                LogReplay { events: ReplayEvents::Owned(copies) }
            },
        }
    }
}

impl<'a> LogReplay<'a> {
    /// Build a replay view over borrowed events.
    pub fn borrowed(events: &'a [LogEvent]) -> (r: Self)
        ensures
            r@ == event_views(events@),
    {
        LogReplay { events: ReplayEvents::Borrowed(events) }
    }

    /// Build a replay view over owned events.
    pub fn owned(events: Vec<LogEvent>) -> (r: Self)
        ensures
            r@ == event_views(events@),
    {
        LogReplay { events: ReplayEvents::Owned(events) }
    }

    /// Return replayed events in sequence order.
    pub fn events(&self) -> (r: &[LogEvent])
        ensures
            event_views(r@) == self@,
    {
        match &self.events {
            ReplayEvents::Borrowed(events) => *events,
            ReplayEvents::Owned(events) => events.as_slice(),
        }
    }

    /// Whether no events are available from the requested cursor.
    pub fn is_empty(&self) -> (r: bool)
        ensures
            r == (self@.len() == 0),
    {
        self.events().len() == 0
    }
}

/// The wake signal of the `tokio` crate.
#[verifier::external_type_specification]
#[verifier::external_body]
pub struct ExNotify(tokio::sync::Notify);

/// `Notify::new`: a fresh wake signal. Nothing is stated of it.
#[verifier::external_body]
pub(crate) fn new_signal() -> (n: Arc<tokio::sync::Notify>) {
    Arc::new(tokio::sync::Notify::new())
}

/// `Notify::notify_waiters`: wakes every task that waits on the signal. It has
/// no effect that a caller reads.
#[verifier::external_body]
pub(crate) fn wake_waiters(n: &Arc<tokio::sync::Notify>) {
    n.notify_waiters()
}

/// Append/replay boundary for a job's ordered log events.
///
/// Implementations give every appended event the position it stands at, keep
/// the order for replay, and leave existing data unchanged when an append
/// fails. The wake signal fires after each successful append.
pub trait JobReplayLog {
    /// The events that the log holds.
    spec fn log(&self) -> Seq<LogEventView>;

    /// The byte cap that the log was made with.
    spec fn cap(&self) -> usize;

    /// The wake signal that the log was made with.
    spec fn signal(&self) -> Arc<tokio::sync::Notify>;

    /// What holds of every log: its events are numbered and fit its cap.
    spec fn wf(&self) -> bool;

    /// A well-formed log numbers its events and keeps to its cap.
    proof fn log_is_bounded(&self)
        requires
            self.wf(),
        ensures
            numbered(self.log()),
            byte_total(self.log()) <= self.cap(),
    ;

    /// Append an event and return its position.
    fn append(&mut self, event: AppendLogEvent) -> (r: Result<LogSeq, Error>)
        requires
            old(self).wf(),
        ensures
            final(self).wf(),
            final(self).cap() == old(self).cap(),
            final(self).signal() == old(self).signal(),
            appended(old(self).log(), final(self).log(), old(self).cap(), event@, r),
    ;

    /// Return all events from position `from_seq` on, in order.
    fn replay_from(&self, from_seq: LogSeq) -> (r: LogReplay<'_>)
        requires
            self.wf(),
        ensures
            r@ == suffix_from(self.log(), from_seq as int),
    ;

    /// Return a handle to this log's wake signal.
    fn subscribe(&self) -> (r: Arc<tokio::sync::Notify>)
        ensures
            r == self.signal(),
    ;

    /// The position that the next successful append will assign.
    fn next_seq(&self) -> (r: LogSeq)
        requires
            self.wf(),
        ensures
            r == self.log().len(),
    ;

    /// The number of events currently available for replay.
    fn len(&self) -> (r: usize)
        requires
            self.wf(),
        ensures
            r == self.log().len(),
    ;

    /// Whether the log holds no events.
    fn is_empty(&self) -> (r: bool)
        requires
            self.wf(),
        ensures
            r == (self.log().len() == 0),
    {
        self.len() == 0
    }
}

/// In-memory implementation of [`JobReplayLog`].
#[derive(Debug)]
pub struct InMemoryJobReplayLog {
    events: Vec<LogEvent>,
    byte_total: usize,
    byte_cap: usize,
    notify: Arc<tokio::sync::Notify>,
}

/// The events of `events` from position `from` on.
pub(crate) fn events_since(events: &Vec<LogEvent>, from: LogSeq) -> (r: &[LogEvent])
    ensures
        event_views(r@) == suffix_from(event_views(events@), from as int),
{
    let n: usize = events.len();
    let start: usize = if from >= n as u64 {
        n
    } else {
        from as usize
    };
    let r = vstd::slice::slice_subrange(events.as_slice(), start, n);
    assert(event_views(r@) =~= suffix_from(event_views(events@), from as int));
    r
}

impl InMemoryJobReplayLog {
    /// Create a new log with the [`DEFAULT_LOG_BYTE_CAP`].
    pub fn new() -> (r: Self)
        ensures
            r.wf(),
            r.log() == Seq::<LogEventView>::empty(),
            r.cap() == DEFAULT_LOG_BYTE_CAP,
    {
        Self::with_cap(DEFAULT_LOG_BYTE_CAP)
    }

    /// Create a new log with an explicit byte cap.
    pub fn with_cap(byte_cap: usize) -> (r: Self)
        ensures
            r.wf(),
            r.log() == Seq::<LogEventView>::empty(),
            r.cap() == byte_cap,
    {
        let r = InMemoryJobReplayLog {
            events: Vec::new(),
            byte_total: 0,
            byte_cap,
            notify: new_signal(),
        };
        assert(r.log() =~= Seq::<LogEventView>::empty());
        r
    }

    /// Return all events from position `from_seq` on as a borrowed slice; an
    /// empty one past the end.
    pub fn since(&self, from_seq: LogSeq) -> (r: &[LogEvent])
        ensures
            event_views(r@) == suffix_from(self.log(), from_seq as int),
    {
        events_since(&self.events, from_seq)
    }
}

impl Default for InMemoryJobReplayLog {
    fn default() -> (r: Self)
        ensures
            r.wf(),
            r.log() == Seq::<LogEventView>::empty(),
            r.cap() == DEFAULT_LOG_BYTE_CAP,
    {
        Self::new()
    }
}

impl JobReplayLog for InMemoryJobReplayLog {
    closed spec fn log(&self) -> Seq<LogEventView> {
        event_views(self.events@)
    }

    closed spec fn cap(&self) -> usize {
        self.byte_cap
    }

    closed spec fn signal(&self) -> Arc<tokio::sync::Notify> {
        self.notify
    }

    closed spec fn wf(&self) -> bool {
        &&& numbered(self.log())
        &&& self.byte_total == byte_total(self.log())
        &&& self.byte_total <= self.byte_cap
    }

    proof fn log_is_bounded(&self) {
    }

    fn append(&mut self, event: AppendLogEvent) -> (r: Result<LogSeq, Error>) {
        let cap: usize = self.byte_cap;
        let ghost before = self.log();
        match self.byte_total.checked_add(bytes_len(&event.data)) {
            None => Err(Error::LogBufferOverflow { cap }),
            Some(new_total) => {
                if new_total > cap {
                    return Err(Error::LogBufferOverflow { cap });
                }
                let seq: u64 = self.events.len() as u64;
                self.byte_total = new_total;
                self.events.push(
                    LogEvent {
                        seq,
                        stream: event.stream,
                        data: event.data,
                        timestamp: event.timestamp,
                    },
                );
                wake_waiters(&self.notify);
                proof {
                    let after = self.log();
                    assert(after =~= before.push(placed(event@, before.len() as int)));
                    assert(after.drop_last() =~= before);
                }
                Ok(seq)
            },
        }
    }

    fn replay_from(&self, from_seq: LogSeq) -> (r: LogReplay<'_>) {
        LogReplay::borrowed(self.since(from_seq))
    }

    fn subscribe(&self) -> (r: Arc<tokio::sync::Notify>) {
        self.notify.clone()
    }

    fn next_seq(&self) -> (r: LogSeq) {
        self.events.len() as u64
    }

    fn len(&self) -> (r: usize) {
        self.events.len()
    }
}

/// An append-only, replayable buffer of a job's log events, held in memory.
///
/// The buffer is bounded by a byte cap; exceeding it is an error and output is
/// never silently dropped.
#[derive(Debug)]
pub struct LogBuffer {
    inner: InMemoryJobReplayLog,
}

impl LogBuffer {
    /// Create a new buffer with the [`DEFAULT_LOG_BYTE_CAP`].
    pub fn new() -> (r: Self)
        ensures
            r.wf(),
            r.log() == Seq::<LogEventView>::empty(),
            r.cap() == DEFAULT_LOG_BYTE_CAP,
    {
        LogBuffer { inner: InMemoryJobReplayLog::new() }
    }

    /// Create a new buffer with an explicit byte cap.
    pub fn with_cap(byte_cap: usize) -> (r: Self)
        ensures
            r.wf(),
            r.log() == Seq::<LogEventView>::empty(),
            r.cap() == byte_cap,
    {
        LogBuffer { inner: InMemoryJobReplayLog::with_cap(byte_cap) }
    }

    /// Append a chunk to the buffer and return its position.
    ///
    /// Where the chunk would exceed the byte cap the buffer is left unchanged.
    pub fn push(&mut self, stream: LogStream, data: bytes::Bytes, timestamp: Timestamp) -> (r: Result<
        LogSeq,
        Error,
    >)
        requires
            old(self).wf(),
        ensures
            final(self).wf(),
            final(self).cap() == old(self).cap(),
            final(self).signal() == old(self).signal(),
            appended(
                old(self).log(),
                final(self).log(),
                old(self).cap(),
                (ChunkView { stream, data: bytes_of(data), timestamp }),
                r,
            ),
    {
        self.append(AppendLogEvent { stream, data, timestamp })
    }

    /// Return a handle to this buffer's wake signal.
    pub fn subscribe(&self) -> (r: Arc<tokio::sync::Notify>)
        ensures
            r == self.signal(),
    {
        self.inner.subscribe()
    }

    /// Fire the wake signal without an append.
    pub fn wake(&self) {
        wake_waiters(&self.inner.notify)
    }

    /// Return all events from position `from_seq` on; none past the end.
    pub fn since(&self, from_seq: LogSeq) -> (r: &[LogEvent])
        ensures
            event_views(r@) == suffix_from(self.log(), from_seq as int),
    {
        self.inner.since(from_seq)
    }

    /// Return all events from position `from_seq` on as a replay view.
    pub fn replay_from(&self, from_seq: LogSeq) -> (r: LogReplay<'_>)
        requires
            self.wf(),
        ensures
            r@ == suffix_from(self.log(), from_seq as int),
    {
        self.inner.replay_from(from_seq)
    }

    /// The number of events currently held in the buffer.
    pub fn len(&self) -> (r: usize)
        requires
            self.wf(),
        ensures
            r == self.log().len(),
    {
        self.inner.len()
    }

    /// Whether the buffer holds no events.
    pub fn is_empty(&self) -> (r: bool)
        requires
            self.wf(),
        ensures
            r == (self.log().len() == 0),
    {
        self.inner.is_empty()
    }
}

impl Default for LogBuffer {
    fn default() -> (r: Self)
        ensures
            r.wf(),
            r.log() == Seq::<LogEventView>::empty(),
            r.cap() == DEFAULT_LOG_BYTE_CAP,
    {
        Self::new()
    }
}

impl JobReplayLog for LogBuffer {
    closed spec fn log(&self) -> Seq<LogEventView> {
        self.inner.log()
    }

    closed spec fn cap(&self) -> usize {
        self.inner.cap()
    }

    closed spec fn signal(&self) -> Arc<tokio::sync::Notify> {
        self.inner.signal()
    }

    closed spec fn wf(&self) -> bool {
        self.inner.wf()
    }

    proof fn log_is_bounded(&self) {
        self.inner.log_is_bounded();
    }

    fn append(&mut self, event: AppendLogEvent) -> (r: Result<LogSeq, Error>) {
        self.inner.append(event)
    }

    fn replay_from(&self, from_seq: LogSeq) -> (r: LogReplay<'_>) {
        self.inner.replay_from(from_seq)
    }

    fn subscribe(&self) -> (r: Arc<tokio::sync::Notify>) {
        self.inner.subscribe()
    }

    fn next_seq(&self) -> (r: LogSeq) {
        self.inner.next_seq()
    }

    fn len(&self) -> (r: usize) {
        self.inner.len()
    }
}

/// A replay that is broken off and resumed loses nothing and repeats nothing:
/// what stands before a position and what is replayed from it is the log.
pub proof fn resumed_replay_completes_the_log(log: Seq<LogEventView>, at: int)
    requires
        0 <= at <= log.len(),
    ensures
        log.take(at) + suffix_from(log, at) == log,
{
    assert(log.take(at) + suffix_from(log, at) =~= log);
}

/// What is logged later comes at the end of a replay from any earlier position.
pub proof fn later_output_comes_last(log: Seq<LogEventView>, chunk: ChunkView, from: int)
    requires
        0 <= from <= log.len(),
    ensures
        suffix_from(log.push(placed(chunk, log.len() as int)), from) == suffix_from(log, from).push(
            placed(chunk, log.len() as int),
        ),
{
    let event = placed(chunk, log.len() as int);
    assert(suffix_from(log.push(event), from) =~= suffix_from(log, from).push(event));
}

/// The bytes of two runs of events add up, and one event counts its data.
pub proof fn byte_totals_add_up(a: Seq<LogEventView>, b: Seq<LogEventView>)
    ensures
        byte_total(a + b) == byte_total(a) + byte_total(b),
    decreases b.len(),
{
    if b.len() == 0 {
        assert(a + b =~= a);
    } else {
        byte_totals_add_up(a, b.drop_last());
        assert((a + b).drop_last() =~= a + b.drop_last());
    }
}

/// A log takes a chunk exactly where the data of all its events and the chunk
/// together stay within the cap.
pub proof fn room_is_what_the_cap_leaves(
    log: Seq<LogEventView>,
    cap: usize,
    chunk: ChunkView,
    seq: int,
)
    ensures
        has_room(log, cap, chunk.data.len()) <==> byte_total(log.push(placed(chunk, seq))) <= cap,
        byte_total(seq![placed(chunk, seq)]) == chunk.data.len(),
        byte_total(Seq::<LogEventView>::empty()) == 0,
{
    assert(log.push(placed(chunk, seq)).drop_last() =~= log);
    let single = seq![placed(chunk, seq)];
    assert(single.drop_last() =~= Seq::<LogEventView>::empty());
    assert(byte_total(single.drop_last()) == 0);
}

/// An append adds the very chunk at the end, under the number of events before
/// it, or changes nothing and says which cap was in the way.
pub proof fn append_keeps_the_chunk_or_the_log(
    before: Seq<LogEventView>,
    after: Seq<LogEventView>,
    cap: usize,
    chunk: ChunkView,
    r: Result<LogSeq, Error>,
)
    requires
        appended(before, after, cap, chunk, r),
    ensures
        r is Ok <==> byte_total(before) + chunk.data.len() <= cap,
        r matches Ok(seq) ==> {
            &&& seq == before.len()
            &&& after.len() == before.len() + 1
            &&& after.last().seq == before.len()
            &&& after.last().stream == chunk.stream
            &&& after.last().data == chunk.data
            &&& after.last().timestamp == chunk.timestamp
            &&& forall|i: int| 0 <= i < before.len() ==> #[trigger] after[i] == before[i]
        },
        r matches Err(e) ==> after == before && e@ == (ErrorView::LogBufferOverflow { cap }),
{
}

/// A replay from a position gives exactly the events at that position and after.
pub proof fn replay_starts_at_its_position(log: Seq<LogEventView>, from: int, i: int)
    requires
        0 <= from,
        0 <= i,
    ensures
        suffix_from(log, from).len() == (if from < log.len() {
            log.len() - from
        } else {
            0
        }),
        i < suffix_from(log, from).len() ==> suffix_from(log, from)[i] == log[from + i],
{
}

/// An event is seen at its position, on its stream, with its bytes and its time,
/// and a list of events one by one, in order.
pub proof fn events_are_seen_in_order(events: Seq<LogEvent>, chunk: AppendLogEvent, i: int)
    ensures
        event_views(events).len() == events.len(),
        0 <= i < events.len() ==> {
            &&& event_views(events)[i].seq == events[i].seq
            &&& event_views(events)[i].stream == events[i].stream
            &&& event_views(events)[i].data == bytes_of(events[i].data)
            &&& event_views(events)[i].timestamp == events[i].timestamp
        },
        chunk@.stream == chunk.stream,
        chunk@.data == bytes_of(chunk.data),
        chunk@.timestamp == chunk.timestamp,
{
}

} // verus!
