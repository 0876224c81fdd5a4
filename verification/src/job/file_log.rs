//! File-backed replay log: the state behind the file, and what reading the file
//! back gives.

use std::sync::Arc;

use vstd::prelude::*;

use crate::error::{Error, ErrorView};
use crate::job::frame::{
    decode_file_log, encodable, encode_frame, field, file_log, file_log_magic, frame_at,
    frame_bytes, frame_instant, frame_refusal, frames_from, magic, seq_from_len, tagged_stream,
    FILE_LOG_HEADER_LEN,
};
use crate::job::log::{
    byte_total, event_views, events_since, has_room, new_signal, numbered, placed, suffix_from,
    wake_waiters, AppendLogEvent, ChunkView, LogEvent, LogEventView, LogReplay, LogSeq, LogStream,
    DEFAULT_LOG_BYTE_CAP,
};
use crate::octets::{
    bytes_len, from_twos_complement, le_bytes, lemma_byte_ranges, lemma_le_bytes_len,
    lemma_le_round_trip, twos_complement,
};
use crate::time::{subsec_nanos, whole_secs};

verus! {

/// What a log file holds once it is open: a new file gets the magic header.
pub open spec fn opened_image(contents: Seq<u8>) -> Seq<u8> {
    if contents.len() == 0 {
        magic()
    } else {
        contents
    }
}

/// The file of a log: the magic header, then the frame of each event in order.
pub open spec fn log_image(log: Seq<LogEventView>) -> Seq<u8>
    decreases log.len(),
{
    if log.len() == 0 {
        magic()
    } else {
        log_image(log.drop_last()) + frame_bytes(log.last().seq, chunk_of(log.last()))
    }
}

/// The chunk of an event.
pub open spec fn chunk_of(event: LogEventView) -> ChunkView {
    ChunkView { stream: event.stream, data: event.data, timestamp: event.timestamp }
}

/// Why an append to a log is refused before anything is written, where it is.
pub open spec fn append_refusal(
    path: Seq<char>,
    log: Seq<LogEventView>,
    cap: usize,
    chunk: ChunkView,
) -> Option<ErrorView> {
    if !has_room(log, cap, chunk.data.len()) {
        Some(ErrorView::LogBufferOverflow { cap })
    } else {
        frame_refusal(path, chunk)
    }
}

/// A file-backed replay log: the events that its file holds.
///
/// Opening reads the whole file; every append is encoded as one frame, which is
/// written to the file before the event becomes part of the log.
pub struct FileJobReplayLog {
    path: String,
    events: Vec<LogEvent>,
    byte_total: usize,
    byte_cap: usize,
    notify: Arc<tokio::sync::Notify>,
    image: Ghost<Option<Seq<u8>>>,
}

impl FileJobReplayLog {
    /// The path of the file.
    pub closed spec fn file_path(&self) -> Seq<char> {
        self.path@
    }

    /// The events that the log holds.
    pub closed spec fn log(&self) -> Seq<LogEventView> {
        event_views(self.events@)
    }

    /// The byte cap that the log was opened with.
    pub closed spec fn cap(&self) -> usize {
        self.byte_cap
    }

    /// The wake signal that the log was made with.
    pub closed spec fn signal(&self) -> Arc<tokio::sync::Notify> {
        self.notify
    }

    /// What the file holds, as long as every write to it went well: one that
    /// fails may leave none, some or all of its frame behind, so from then on
    /// nothing is known of the file.
    pub closed spec fn image(&self) -> Option<Seq<u8>> {
        self.image@
    }

    /// What holds of every log: its events are numbered and fit its cap, and
    /// reading its file back, where every write went well and memory can hold it,
    /// gives the same events.
    pub closed spec fn wf(&self) -> bool {
        &&& numbered(self.log())
        &&& self.byte_total == byte_total(self.log())
        &&& self.byte_total <= self.byte_cap
        &&& self.image() matches Some(bytes) ==> (bytes.len() <= usize::MAX ==> file_log(
            self.path@,
            bytes,
            self.byte_cap,
        ) == Ok::<Seq<LogEventView>, ErrorView>(self.log()))
    }

    /// A well-formed log numbers its events and keeps to its cap.
    pub proof fn log_is_bounded(&self)
        requires
            self.wf(),
        ensures
            numbered(self.log()),
            byte_total(self.log()) <= self.cap(),
    {
    }

    /// Reopening the file of a log to which every write went well gives the log
    /// back, positions included.
    pub proof fn reopening_gives_the_log_back(&self)
        requires
            self.wf(),
            self.image() is Some,
            self.image()->0.len() <= usize::MAX,
        ensures
            file_log(self.file_path(), self.image()->0, self.cap()) == Ok::<
                Seq<LogEventView>,
                ErrorView,
            >(self.log()),
    {
    }

    /// What has to be written to a file that was found to hold `contents`
    /// before it is a log file: the magic header where the file is new.
    pub fn bytes_to_open(contents: &[u8]) -> (r: Vec<u8>)
        ensures
            contents@ + r@ == opened_image(contents@),
    {
        if contents.len() == 0 {
            let r = file_log_magic();
            assert(contents@ + r@ =~= magic());
            r
        } else {
            let r: Vec<u8> = Vec::new();
            assert(contents@ + r@ =~= contents@);
            r
        }
    }

    /// Open a log over a file that was found to hold `contents`, with the
    /// [`DEFAULT_LOG_BYTE_CAP`].
    pub fn open(path: String, contents: &[u8]) -> (r: Result<Self, Error>)
        ensures
            match r {
                Ok(opened) => {
                    &&& opened.wf()
                    &&& opened.file_path() == path@
                    &&& opened.cap() == DEFAULT_LOG_BYTE_CAP
                    &&& opened.image() == Some(opened_image(contents@))
                    &&& file_log(path@, opened_image(contents@), DEFAULT_LOG_BYTE_CAP) == Ok::<
                        Seq<LogEventView>,
                        ErrorView,
                    >(opened.log())
                },
                Err(e) => file_log(path@, opened_image(contents@), DEFAULT_LOG_BYTE_CAP) == Err::<
                    Seq<LogEventView>,
                    ErrorView,
                >(e@),
            },
    {
        Self::with_cap(path, contents, DEFAULT_LOG_BYTE_CAP)
    }

    /// Open a log over a file that was found to hold `contents`, with an
    /// explicit byte cap.
    pub fn with_cap(path: String, contents: &[u8], byte_cap: usize) -> (r: Result<Self, Error>)
        ensures
            match r {
                Ok(opened) => {
                    &&& opened.wf()
                    &&& opened.file_path() == path@
                    &&& opened.cap() == byte_cap
                    &&& opened.image() == Some(opened_image(contents@))
                    &&& file_log(path@, opened_image(contents@), byte_cap) == Ok::<
                        Seq<LogEventView>,
                        ErrorView,
                    >(opened.log())
                },
                Err(e) => file_log(path@, opened_image(contents@), byte_cap) == Err::<
                    Seq<LogEventView>,
                    ErrorView,
                >(e@),
            },
    {
        let header = Self::bytes_to_open(contents);
        let decoded = if contents.len() == 0 {
            assert(contents@ + header@ =~= header@);
            decode_file_log(path.as_str(), header.as_slice(), byte_cap)
        } else {
            decode_file_log(path.as_str(), contents, byte_cap)
        };
        match decoded {
            Err(e) => Err(e),
            Ok((events, total)) => Ok(
                FileJobReplayLog {
                    path,
                    events,
                    byte_total: total,
                    byte_cap,
                    notify: new_signal(),
                    image: Ghost(Some(opened_image(contents@))),
                },
            ),
        }
    }

    /// The bytes that an append of `event` has to write to the file; or why it
    /// is refused.
    pub fn frame_for(&self, event: &AppendLogEvent) -> (r: Result<Vec<u8>, Error>)
        requires
            self.wf(),
        ensures
            match r {
                Ok(frame) => append_refusal(self.file_path(), self.log(), self.cap(), event@)
                    is None && frame@ == frame_bytes(self.log().len() as int, event@),
                Err(e) => append_refusal(self.file_path(), self.log(), self.cap(), event@) == Some(
                    e@,
                ),
            },
    {
        match self.byte_total.checked_add(bytes_len(&event.data)) {
            None => Err(Error::LogBufferOverflow { cap: self.byte_cap }),
            Some(new_total) => {
                if new_total > self.byte_cap {
                    return Err(Error::LogBufferOverflow { cap: self.byte_cap });
                }
                encode_frame(self.path.as_str(), seq_from_len(self.events.len()), event)
            },
        }
    }

    /// Append an event whose frame was written to the file, or could not be:
    /// `written` says which. Returns the position of the event.
    pub fn append(&mut self, event: AppendLogEvent, written: Result<(), String>) -> (r: Result<
        LogSeq,
        Error,
    >)
        requires
            old(self).wf(),
        ensures
            final(self).wf(),
            final(self).file_path() == old(self).file_path(),
            final(self).cap() == old(self).cap(),
            final(self).signal() == old(self).signal(),
            match append_refusal(old(self).file_path(), old(self).log(), old(self).cap(), event@) {
                Some(refusal) => {
                    &&& r matches Err(e) && e@ == refusal
                    &&& final(self).log() == old(self).log()
                    &&& final(self).image() == old(self).image()
                },
                None => match written {
                    Err(reason) => {
                        &&& r matches Err(e) && e@ == (ErrorView::ReplayLogIo {
                            path: old(self).file_path(),
                            reason: reason@,
                        })
                        &&& final(self).log() == old(self).log()
                        &&& final(self).image() is None
                    },
                    Ok(_) => {
                        let seq = old(self).log().len() as int;
                        &&& r matches Ok(s) && s == seq
                        &&& final(self).log() == old(self).log().push(placed(event@, seq))
                        &&& final(self).image() == match old(self).image() {
                            Some(bytes) => Some(bytes + frame_bytes(seq, event@)),
                            None => None,
                        }
                    },
                },
            },
    {
        let frame = match self.frame_for(&event) {
            Err(e) => {
                return Err(e);
            },
            Ok(frame) => frame,
        };
        match written {
            Err(reason) => {
                self.image = Ghost(None);
                Err(Error::ReplayLogIo { path: self.path.clone(), reason })
            },
            Ok(_) => {
                let ghost before = self.log();
                let ghost was = self.image();
                let seq: u64 = seq_from_len(self.events.len());
                let data_len: usize = bytes_len(&event.data);
                proof {
                    if let Some(bytes) = was {
                        if (bytes + frame@).len() <= usize::MAX {
                            appending_a_frame_appends_its_event(
                                self.path@,
                                bytes,
                                before,
                                self.byte_cap,
                                event@,
                            );
                        }
                    }
                }
                self.byte_total = self.byte_total + data_len;
                self.events.push(
                    LogEvent {
                        seq,
                        stream: event.stream,
                        data: event.data,
                        timestamp: event.timestamp,
                    },
                );
                self.image = Ghost(
                    match was {
                        Some(bytes) => Some(bytes + frame@),
                        None => None,
                    },
                );
                wake_waiters(&self.notify);
                proof {
                    assert(self.log() =~= before.push(placed(event@, before.len() as int)));
                    assert(self.log().drop_last() =~= before);
                }
                Ok(seq)
            },
        }
    }

    /// Return all events from position `from_seq` on as a borrowed slice; an
    /// empty one past the end.
    pub fn since(&self, from_seq: LogSeq) -> (r: &[LogEvent])
        ensures
            event_views(r@) == suffix_from(self.log(), from_seq as int),
    {
        events_since(&self.events, from_seq)
    }

    /// Return all events from position `from_seq` on as a replay view.
    pub fn replay_from(&self, from_seq: LogSeq) -> (r: LogReplay<'_>)
        ensures
            r@ == suffix_from(self.log(), from_seq as int),
    {
        LogReplay::borrowed(self.since(from_seq))
    }

    /// Return a handle to this log's wake signal.
    pub fn subscribe(&self) -> (r: Arc<tokio::sync::Notify>)
        ensures
            r == self.signal(),
    {
        self.notify.clone()
    }

    /// The position that the next successful append will assign.
    pub fn next_seq(&self) -> (r: LogSeq)
        ensures
            r == self.log().len(),
    {
        self.events.len() as u64
    }

    /// The number of events currently available for replay.
    pub fn len(&self) -> (r: usize)
        ensures
            r == self.log().len(),
    {
        self.events.len()
    }

    /// Whether the log holds no events.
    pub fn is_empty(&self) -> (r: bool)
        ensures
            r == (self.log().len() == 0),
    {
        self.events.len() == 0
    }
}

/// Frames that read well read the same where more bytes follow them.
proof fn lemma_frames_extend(
    path: Seq<char>,
    bytes: Seq<u8>,
    extra: Seq<u8>,
    at: nat,
    log: Seq<LogEventView>,
    cap: usize,
)
    requires
        at <= bytes.len(),
        frames_from(path, bytes, at, log, cap) is Ok,
    ensures
        frames_from(path, bytes + extra, at, log, cap) == frames_from(
            path,
            bytes + extra,
            bytes.len(),
            frames_from(path, bytes, at, log, cap)->Ok_0,
            cap,
        ),
    decreases bytes.len() - at,
{
    if at < bytes.len() {
        let a = at as int;
        let more = bytes + extra;
        let here = frame_at(path, bytes, a, log.len() as int, byte_total(log), cap);
        let event = here->Ok_0;
        let n = field(bytes, a + 21, 8) as int;
        assert(more.subrange(a, a + 8) =~= bytes.subrange(a, a + 8));
        assert(more.subrange(a + 9, a + 9 + 8) =~= bytes.subrange(a + 9, a + 9 + 8));
        assert(more.subrange(a + 17, a + 17 + 4) =~= bytes.subrange(a + 17, a + 17 + 4));
        assert(more.subrange(a + 21, a + 21 + 8) =~= bytes.subrange(a + 21, a + 21 + 8));
        assert(more.subrange(a + 29, a + 29 + n) =~= bytes.subrange(a + 29, a + 29 + n));
        assert(frame_at(path, more, a, log.len() as int, byte_total(log), cap) == here);
        lemma_frames_extend(path, bytes, extra, at + 29 + event.data.len(), log.push(event), cap);
    }
}

/// The frame of a chunk reads back as that chunk.
proof fn lemma_frame_reads_back(
    path: Seq<char>,
    bytes: Seq<u8>,
    log: Seq<LogEventView>,
    cap: usize,
    chunk: ChunkView,
)
    requires
        has_room(log, cap, chunk.data.len()),
        encodable(chunk.timestamp),
        log.len() <= u64::MAX,
        (bytes + frame_bytes(log.len() as int, chunk)).len() <= usize::MAX,
    ensures
        frame_at(
            path,
            bytes + frame_bytes(log.len() as int, chunk),
            bytes.len() as int,
            log.len() as int,
            byte_total(log),
            cap,
        ) == Ok::<LogEventView, ErrorView>(placed(chunk, log.len() as int)),
        frame_bytes(log.len() as int, chunk).len() == 29 + chunk.data.len(),
{
    let seq = log.len() as int;
    let t = chunk.timestamp.nanos_since_epoch as int;
    let secs = twos_complement(whole_secs(t));
    let f1 = le_bytes(seq as nat, 8);
    let f3 = le_bytes(secs, 8);
    let f4 = le_bytes(subsec_nanos(t) as nat, 4);
    let f5 = le_bytes(chunk.data.len(), 8);
    let frame = frame_bytes(seq, chunk);
    let image = bytes + frame;
    let at = bytes.len() as int;
    lemma_byte_ranges();
    lemma_le_bytes_len(seq as nat, 8);
    lemma_le_bytes_len(secs, 8);
    lemma_le_bytes_len(subsec_nanos(t) as nat, 4);
    lemma_le_bytes_len(chunk.data.len(), 8);
    lemma_le_round_trip(seq as nat, 8);
    lemma_le_round_trip(secs, 8);
    lemma_le_round_trip(subsec_nanos(t) as nat, 4);
    lemma_le_round_trip(chunk.data.len(), 8);
    assert(image.subrange(at, at + 8) =~= f1);
    assert(image.subrange(at + 9, at + 9 + 8) =~= f3);
    assert(image.subrange(at + 17, at + 17 + 4) =~= f4);
    assert(image.subrange(at + 21, at + 21 + 8) =~= f5);
    let n = chunk.data.len() as int;
    assert(image.subrange(at + 29, at + 29 + n) =~= chunk.data);
    assert(from_twos_complement(secs) == whole_secs(t));
    assert(frame_instant(whole_secs(t), subsec_nanos(t)) == chunk.timestamp);
    assert(tagged_stream(image[at + 8]) == Some(chunk.stream));
}

/// Appending the frame of a chunk to a log file appends the chunk to the log
/// that the file holds, at the next position, and changes nothing else of it.
pub proof fn appending_a_frame_appends_its_event(
    path: Seq<char>,
    image: Seq<u8>,
    log: Seq<LogEventView>,
    cap: usize,
    chunk: ChunkView,
)
    requires
        file_log(path, image, cap) == Ok::<Seq<LogEventView>, ErrorView>(log),
        has_room(log, cap, chunk.data.len()),
        encodable(chunk.timestamp),
        log.len() <= u64::MAX,
        (image + frame_bytes(log.len() as int, chunk)).len() <= usize::MAX,
    ensures
        file_log(path, image + frame_bytes(log.len() as int, chunk), cap) == Ok::<
            Seq<LogEventView>,
            ErrorView,
        >(log.push(placed(chunk, log.len() as int))),
{
    let frame = frame_bytes(log.len() as int, chunk);
    let more = image + frame;
    assert(more.subrange(0, magic().len() as int) =~= image.subrange(0, magic().len() as int));
    lemma_frames_extend(
        path,
        image,
        frame,
        FILE_LOG_HEADER_LEN as nat,
        Seq::empty(),
        cap,
    );
    lemma_frame_reads_back(path, image, log, cap, chunk);
    reveal_with_fuel(frames_from, 2);
}

/// Reading the file of a log gives the log: every numbered log that fits its cap
/// and whose instants a frame can write survives being written and read.
pub proof fn log_survives_its_file(path: Seq<char>, log: Seq<LogEventView>, cap: usize)
    requires
        numbered(log),
        byte_total(log) <= cap,
        forall|i: int| 0 <= i < log.len() ==> encodable((#[trigger] log[i]).timestamp),
        log.len() <= u64::MAX,
        log_image(log).len() <= usize::MAX,
    ensures
        file_log(path, log_image(log), cap) == Ok::<Seq<LogEventView>, ErrorView>(log),
    decreases log.len(),
{
    if log.len() == 0 {
        assert(magic().subrange(0, magic().len() as int) =~= magic());
        assert(log =~= Seq::empty());
    } else {
        let head = log.drop_last();
        let chunk = chunk_of(log.last());
        log_survives_its_file(path, head, cap);
        appending_a_frame_appends_its_event(path, log_image(head), head, cap, chunk);
        assert(log.last() == log[log.len() - 1]);
        assert(head.push(placed(chunk, head.len() as int)) =~= log);
    }
}

/// A log file starts with the characters `AXPJOBLOG1` and a line feed.
pub proof fn file_starts_with_its_name()
    ensures
        magic().len() == "AXPJOBLOG1\n"@.len() == FILE_LOG_HEADER_LEN,
        forall|i: int|
            0 <= i < magic().len() ==> #[trigger] magic()[i] as int == "AXPJOBLOG1\n"@[i] as int,
{
    reveal_strlit("AXPJOBLOG1\n");
}

/// A frame holds, in this order and without gaps, the position in 8 bytes, the
/// stream in one byte (1 for standard output, 2 for standard error), the whole
/// seconds in 8 bytes, the nanoseconds beyond them in 4 bytes, the length of the
/// data in 8 bytes, and the data.
pub proof fn frames_have_one_layout(seq: u64, chunk: ChunkView)
    requires
        encodable(chunk.timestamp),
        chunk.data.len() <= u64::MAX,
    ensures
        ({
            let frame = frame_bytes(seq as int, chunk);
            let secs = from_twos_complement(field(frame, 9, 8));
            let nanos = field(frame, 17, 4);
            &&& frame.len() == 29 + chunk.data.len()
            &&& field(frame, 0, 8) == seq
            &&& frame[8] == 1 <==> chunk.stream == LogStream::Stdout
            &&& frame[8] == 2 <==> chunk.stream == LogStream::Stderr
            &&& nanos < 1_000_000_000
            &&& secs * 1_000_000_000 + nanos == chunk.timestamp.nanos_since_epoch
            &&& field(frame, 21, 8) == chunk.data.len()
            &&& frame.subrange(29, frame.len() as int) == chunk.data
        }),
{
    let t = chunk.timestamp.nanos_since_epoch as int;
    let secs = twos_complement(whole_secs(t));
    let nanos = subsec_nanos(t) as nat;
    let frame = frame_bytes(seq as int, chunk);
    lemma_byte_ranges();
    lemma_le_bytes_len(seq as nat, 8);
    lemma_le_bytes_len(secs, 8);
    lemma_le_bytes_len(nanos, 4);
    lemma_le_bytes_len(chunk.data.len(), 8);
    lemma_le_round_trip(seq as nat, 8);
    lemma_le_round_trip(secs, 8);
    lemma_le_round_trip(nanos, 4);
    lemma_le_round_trip(chunk.data.len(), 8);
    assert(frame.subrange(0, 8) =~= le_bytes(seq as nat, 8));
    assert(frame.subrange(9, 17) =~= le_bytes(secs, 8));
    assert(frame.subrange(17, 21) =~= le_bytes(nanos, 4));
    assert(frame.subrange(21, 29) =~= le_bytes(chunk.data.len(), 8));
    assert(frame.subrange(29, frame.len() as int) =~= chunk.data);
    assert(from_twos_complement(secs) == whole_secs(t));
}

/// What a frame reads as stands in its bytes: it lies within the file, bears the
/// position that is next and one of the two stream tags, and leaves the log
/// within its cap. Any other frame is refused.
pub proof fn read_frames_stand_in_the_file(
    path: Seq<char>,
    bytes: Seq<u8>,
    at: int,
    expected: int,
    held: nat,
    cap: usize,
)
    requires
        0 <= at,
    ensures
        frame_at(path, bytes, at, expected, held, cap) matches Ok(event) ==> {
            let end = at + 29 + event.data.len();
            &&& end <= bytes.len()
            &&& event.data == bytes.subrange(at + 29, end)
            &&& event.data.len() == field(bytes, at + 21, 8)
            &&& event.seq == expected == field(bytes, at, 8)
            &&& held + event.data.len() <= cap
            &&& bytes[at + 8] == 1 <==> event.stream == LogStream::Stdout
            &&& bytes[at + 8] == 2 <==> event.stream == LogStream::Stderr
        },
        bytes.len() < at + 29 ==> frame_at(path, bytes, at, expected, held, cap) is Err,
        at + 9 <= bytes.len() && bytes[at + 8] != 1 && bytes[at + 8] != 2 ==> frame_at(
            path,
            bytes,
            at,
            expected,
            held,
            cap,
        ) is Err,
        field(bytes, at, 8) != expected ==> frame_at(path, bytes, at, expected, held, cap) is Err,
        field(bytes, at + 17, 4) >= 1_000_000_000 ==> frame_at(
            path,
            bytes,
            at,
            expected,
            held,
            cap,
        ) is Err,
{
}

/// A file that does not start with the magic header holds no log.
pub proof fn other_files_hold_no_log(path: Seq<char>, bytes: Seq<u8>, cap: usize)
    ensures
        file_log(path, bytes, cap) is Ok ==> bytes.len() >= FILE_LOG_HEADER_LEN && bytes.take(
            FILE_LOG_HEADER_LEN as int,
        ) == magic(),
        bytes.len() == 0 ==> file_log(path, opened_image(bytes), cap) == Ok::<
            Seq<LogEventView>,
            ErrorView,
        >(Seq::empty()),
        bytes.len() > 0 ==> opened_image(bytes) == bytes,
{
    if bytes.len() == 0 {
        assert(magic().subrange(0, magic().len() as int) =~= magic());
    }
    if magic().is_prefix_of(bytes) {
        assert(bytes.take(FILE_LOG_HEADER_LEN as int) =~= magic());
    }
}

/// A frame can be made of every chunk whose instant lies within 64 bits of
/// seconds on either side of the epoch and which is not too long to be held; any
/// other is refused as something that no log can hold.
pub proof fn frames_are_made_of_what_they_can_hold(path: Seq<char>, chunk: ChunkView)
    ensures
        encodable(chunk.timestamp) <==> -0x7fff_ffff_ffff_ffff * 1_000_000_000
            <= chunk.timestamp.nanos_since_epoch < 0x8000_0000_0000_0000 * 1_000_000_000,
        frame_refusal(path, chunk) is None <==> encodable(chunk.timestamp) && 29 + chunk.data.len()
            <= usize::MAX,
        frame_refusal(path, chunk) matches Some(e) ==> (e matches ErrorView::ReplayLogCorrupt {
            path: named,
            offset,
            reason: _,
        } && named == path && offset == 0),
{
}

/// An append is refused for want of room, or for want of a frame, and only so;
/// want of room comes first.
pub proof fn appends_need_room_and_a_frame(
    path: Seq<char>,
    log: Seq<LogEventView>,
    cap: usize,
    chunk: ChunkView,
)
    ensures
        append_refusal(path, log, cap, chunk) is None <==> byte_total(log) + chunk.data.len() <= cap
            && frame_refusal(path, chunk) is None,
        byte_total(log) + chunk.data.len() > cap ==> append_refusal(path, log, cap, chunk) == Some(
            ErrorView::LogBufferOverflow { cap },
        ),
{
}

} // verus!
