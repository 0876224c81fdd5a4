//! The on-disk format of a replay log.
//!
//! A log file is an append-only binary stream: the magic header
//! `AXPJOBLOG1\n`, then one frame per event. A frame is `seq: u64`,
//! `stream: u8`, `timestamp_secs: i64`, `timestamp_nanos: u32`,
//! `data_len: u64`, all little-endian, then `data_len` raw bytes.

use vstd::prelude::*;
use vstd::string::*;

use crate::error::{Error, ErrorView};
use crate::job::log::{
    byte_total, event_views, numbered, AppendLogEvent, ChunkView, LogEvent, LogEventView, LogSeq,
    LogStream,
};
use crate::octets::{
    byte_range, bytes_len, bytes_slice, from_pattern, from_twos_complement, le_bytes, le_value,
    lemma_byte_ranges, push_le, read_le, to_pattern, twos_complement,
};
use crate::text::{concat_text, decimal, decimal_text};
use crate::time::{subsec_nanos, whole_secs, Timestamp};

verus! {

/// The magic header: the ASCII bytes of `AXPJOBLOG1` and a line feed.
pub open spec fn magic() -> Seq<u8> {
    seq![65u8, 88, 80, 74, 79, 66, 76, 79, 71, 49, 10]
}

/// Length of the magic header.
pub const FILE_LOG_HEADER_LEN: usize = 11;

/// Length of a frame without its data.
pub const FILE_LOG_FRAME_FIXED_LEN: usize = 29;

/// Frame tag of standard output.
pub const STREAM_STDOUT: u8 = 1;

/// Frame tag of standard error.
pub const STREAM_STDERR: u8 = 2;

/// The frame tag of a stream.
pub open spec fn stream_tag(stream: LogStream) -> u8 {
    match stream {
        LogStream::Stdout => STREAM_STDOUT,
        LogStream::Stderr => STREAM_STDERR,
    }
}

/// The stream of a frame tag.
pub open spec fn tagged_stream(tag: u8) -> Option<LogStream> {
    if tag == STREAM_STDOUT {
        Some(LogStream::Stdout)
    } else if tag == STREAM_STDERR {
        Some(LogStream::Stderr)
    } else {
        None
    }
}

/// Whether a frame can write an instant.
pub open spec fn encodable(t: Timestamp) -> bool {
    -i64::MAX <= whole_secs(t.nanos_since_epoch as int) <= i64::MAX
}

/// The frame of a chunk at a position.
pub open spec fn frame_bytes(seq: int, chunk: ChunkView) -> Seq<u8> {
    let t = chunk.timestamp.nanos_since_epoch as int;
    le_bytes(seq as nat, 8) + seq![stream_tag(chunk.stream)] + le_bytes(
        twos_complement(whole_secs(t)),
        8,
    ) + le_bytes(subsec_nanos(t) as nat, 4) + le_bytes(chunk.data.len(), 8) + chunk.data
}

/// The failure of a log that holds something else than frames.
pub open spec fn corrupt(path: Seq<char>, offset: int, reason: Seq<char>) -> ErrorView {
    ErrorView::ReplayLogCorrupt { path, offset, reason }
}

/// Why no frame can be made of a chunk, where none can.
pub open spec fn frame_refusal(path: Seq<char>, chunk: ChunkView) -> Option<ErrorView> {
    if !encodable(chunk.timestamp) {
        Some(corrupt(path, 0, "timestamp seconds exceed frame range"@))
    } else if FILE_LOG_FRAME_FIXED_LEN + chunk.data.len() > usize::MAX {
        Some(corrupt(path, 0, "frame length exceeds addressable memory"@))
    } else {
        None
    }
}

/// Why `width` bytes cannot be read at `at` of a file of `len` bytes, where they cannot.
pub open spec fn read_refusal(path: Seq<char>, len: int, at: int, width: int) -> Option<ErrorView> {
    if at + width > usize::MAX {
        Some(corrupt(path, at, "frame offset overflow"@))
    } else if at + width > len {
        Some(corrupt(path, at, "truncated frame"@))
    } else {
        None
    }
}

/// The instant that the two timestamp fields of a frame write.
pub open spec fn frame_instant(secs: int, nanos: int) -> Timestamp {
    Timestamp { nanos_since_epoch: (secs * 1_000_000_000 + nanos) as i128 }
}

/// The number in the `width` bytes at `at`.
pub open spec fn field(bytes: Seq<u8>, at: int, width: int) -> nat {
    le_value(bytes.subrange(at, at + width))
}

/// The event in the frame at `at`, which stands at position `expected` of a log
/// that holds `held` bytes under a cap; or what is wrong with that frame.
pub open spec fn frame_at(
    path: Seq<char>,
    bytes: Seq<u8>,
    at: int,
    expected: int,
    held: nat,
    cap: usize,
) -> Result<LogEventView, ErrorView> {
    let len = bytes.len() as int;
    if let Some(e) = read_refusal(path, len, at, 8) {
        Err(e)
    } else if at + 9 > len {
        Err(corrupt(path, at + 8, "truncated frame"@))
    } else if tagged_stream(bytes[at + 8]) is None {
        Err(corrupt(path, at, "invalid stream tag "@ + decimal(bytes[at + 8] as nat)))
    } else if let Some(e) = read_refusal(path, len, at + 9, 8) {
        Err(e)
    } else if let Some(e) = read_refusal(path, len, at + 17, 4) {
        Err(e)
    } else if let Some(e) = read_refusal(path, len, at + 21, 8) {
        Err(e)
    } else {
        let seq = field(bytes, at, 8);
        let secs = from_twos_complement(field(bytes, at + 9, 8));
        let nanos = field(bytes, at + 17, 4);
        let data_len = field(bytes, at + 21, 8);
        if data_len > usize::MAX {
            Err(corrupt(path, at, "frame data length exceeds addressable memory"@))
        } else if at + 29 + data_len > usize::MAX {
            Err(corrupt(path, at, "frame data length overflows file offset"@))
        } else if at + 29 + data_len > len {
            Err(corrupt(path, at + 29, "truncated frame data"@))
        } else if seq != expected {
            Err(
                corrupt(
                    path,
                    at,
                    "expected seq "@ + decimal(expected as nat) + ", found "@ + decimal(seq),
                ),
            )
        } else if held + data_len > cap {
            Err(ErrorView::LogBufferOverflow { cap })
        } else if nanos >= 1_000_000_000 {
            Err(corrupt(path, at, "invalid timestamp nanos "@ + decimal(nanos)))
        } else {
            Ok(
                LogEventView {
                    seq: expected,
                    stream: tagged_stream(bytes[at + 8])->Some_0,
                    data: bytes.subrange(at + 29, at + 29 + data_len),
                    timestamp: frame_instant(secs, nanos as int),
                },
            )
        }
    }
}

/// The log that the frames from `at` to the end add to `log`; or the first failure.
pub open spec fn frames_from(
    path: Seq<char>,
    bytes: Seq<u8>,
    at: nat,
    log: Seq<LogEventView>,
    cap: usize,
) -> Result<Seq<LogEventView>, ErrorView>
    decreases bytes.len() - at,
{
    if at >= bytes.len() {
        Ok(log)
    } else {
        match frame_at(path, bytes, at as int, log.len() as int, byte_total(log), cap) {
            Err(e) => Err(e),
            Ok(event) => frames_from(path, bytes, at + 29 + event.data.len(), log.push(event), cap),
        }
    }
}

/// The log that a file holds; or what is wrong with it.
pub open spec fn file_log(path: Seq<char>, bytes: Seq<u8>, cap: usize) -> Result<
    Seq<LogEventView>,
    ErrorView,
> {
    if !magic().is_prefix_of(bytes) {
        Err(corrupt(path, 0, "missing replay log magic header"@))
    } else {
        frames_from(path, bytes, FILE_LOG_HEADER_LEN as nat, Seq::empty(), cap)
    }
}

/// The magic header.
pub fn file_log_magic() -> (r: Vec<u8>)
    ensures
        r@ == magic(),
{
    let r: Vec<u8> = vec![65u8, 88, 80, 74, 79, 66, 76, 79, 71, 49, 10];
    assert(r@ =~= magic());
    r
}

fn corrupt_log(path: &str, offset: u64, reason: String) -> (e: Error)
    ensures
        e@ == corrupt(path@, offset as int, reason@),
{
    Error::ReplayLogCorrupt { path: path.to_owned(), offset, reason }
}

/// The position of an event that follows `len` others.
pub fn seq_from_len(len: usize) -> (r: LogSeq)
    ensures
        r == len,
{
    len as u64
}

/// The frame tag of a stream.
pub fn encode_stream(stream: LogStream) -> (tag: u8)
    ensures
        tag == stream_tag(stream),
{
    match stream {
        LogStream::Stdout => STREAM_STDOUT,
        LogStream::Stderr => STREAM_STDERR,
    }
}

/// The stream of a frame tag; `offset` is where the frame begins.
pub fn decode_stream(tag: u8, path: &str, offset: u64) -> (r: Result<LogStream, Error>)
    ensures
        match r {
            Ok(stream) => tagged_stream(tag) == Some(stream),
            Err(e) => tagged_stream(tag) is None && e@ == corrupt(
                path@,
                offset as int,
                "invalid stream tag "@ + decimal(tag as nat),
            ),
        },
{
    if tag == STREAM_STDOUT {
        Ok(LogStream::Stdout)
    } else if tag == STREAM_STDERR {
        Ok(LogStream::Stderr)
    } else {
        let digits = decimal_text(tag as u64);
        Err(corrupt_log(path, offset, concat_text("invalid stream tag ", digits.as_str())))
    }
}

/// The two timestamp fields of an instant; an instant before the epoch counts
/// its nanoseconds up from the second that precedes it.
pub fn encode_timestamp(timestamp: Timestamp, path: &str, offset: u64) -> (r: Result<
    (i64, u32),
    Error,
>)
    ensures
        match r {
            Ok(fields) => encodable(timestamp) && fields.0 == whole_secs(
                timestamp.nanos_since_epoch as int,
            ) && fields.1 == subsec_nanos(timestamp.nanos_since_epoch as int),
            Err(e) => !encodable(timestamp) && e@ == corrupt(
                path@,
                offset as int,
                "timestamp seconds exceed frame range"@,
            ),
        },
{
    let (secs, nanos) = timestamp.split();
    if secs > i64::MAX as i128 || secs < -(i64::MAX as i128) {
        Err(corrupt_log(path, offset, "timestamp seconds exceed frame range".to_owned()))
    } else {
        Ok((secs as i64, nanos))
    }
}

/// The instant that the two timestamp fields of a frame write.
pub fn decode_timestamp(secs: i64, nanos: u32, path: &str, offset: u64) -> (r: Result<
    Timestamp,
    Error,
>)
    ensures
        match r {
            Ok(t) => nanos < 1_000_000_000 && t == frame_instant(secs as int, nanos as int),
            Err(e) => nanos >= 1_000_000_000 && e@ == corrupt(
                path@,
                offset as int,
                "invalid timestamp nanos "@ + decimal(nanos as nat),
            ),
        },
{
    if nanos >= 1_000_000_000 {
        let digits = decimal_text(nanos as u64);
        return Err(
            corrupt_log(path, offset, concat_text("invalid timestamp nanos ", digits.as_str())),
        );
    }
    Ok(Timestamp { nanos_since_epoch: secs as i128 * 1_000_000_000 + nanos as i128 })
}

/// The frame of a chunk at a position.
pub fn encode_frame(path: &str, seq: LogSeq, event: &AppendLogEvent) -> (r: Result<Vec<u8>, Error>)
    ensures
        match r {
            Ok(frame) => frame_refusal(path@, event@) is None && frame@ == frame_bytes(
                seq as int,
                event@,
            ),
            Err(e) => frame_refusal(path@, event@) == Some(e@),
        },
{
    let (secs, nanos) = match encode_timestamp(event.timestamp, path, 0) {
        Ok(fields) => fields,
        Err(e) => {
            return Err(e);
        },
    };
    let data_len: usize = bytes_len(&event.data);
    if data_len > usize::MAX - FILE_LOG_FRAME_FIXED_LEN {
        return Err(corrupt_log(path, 0, "frame length exceeds addressable memory".to_owned()));
    }
    let mut frame: Vec<u8> = Vec::with_capacity(FILE_LOG_FRAME_FIXED_LEN + data_len);
    push_le(&mut frame, seq, 8);
    frame.push(encode_stream(event.stream));
    push_le(&mut frame, to_pattern(secs), 8);
    push_le(&mut frame, nanos as u64, 4);
    push_le(&mut frame, data_len as u64, 8);
    let ghost head = frame@;
    frame.extend_from_slice(bytes_slice(&event.data));
    assert(frame@ =~= frame_bytes(seq as int, event@));
    Ok(frame)
}

/// The end of a read of `len` bytes at `offset`.
pub fn checked_read_end(path: &str, bytes: &[u8], offset: usize, len: usize) -> (r: Result<
    usize,
    Error,
>)
    ensures
        match r {
            Ok(end) => read_refusal(path@, bytes@.len() as int, offset as int, len as int) is None
                && end == offset + len,
            Err(e) => read_refusal(path@, bytes@.len() as int, offset as int, len as int) == Some(
                e@,
            ),
        },
{
    match offset.checked_add(len) {
        None => Err(corrupt_log(path, offset as u64, "frame offset overflow".to_owned())),
        Some(end) => {
            if end > bytes.len() {
                Err(corrupt_log(path, offset as u64, "truncated frame".to_owned()))
            } else {
                Ok(end)
            }
        },
    }
}

fn read_number(path: &str, bytes: &[u8], offset: usize, width: usize) -> (r: Result<u64, Error>)
    requires
        width <= 8,
    ensures
        match r {
            Ok(n) => {
                &&& read_refusal(path@, bytes@.len() as int, offset as int, width as int) is None
                &&& n == field(bytes@, offset as int, width as int)
                &&& n < byte_range(width as nat)
            },
            Err(e) => read_refusal(path@, bytes@.len() as int, offset as int, width as int)
                == Some(e@),
        },
{
    match checked_read_end(path, bytes, offset, width) {
        Err(e) => Err(e),
        Ok(end) => Ok(read_le(bytes, offset, width)),
    }
}

/// The byte at `offset`.
pub fn read_u8(path: &str, bytes: &[u8], offset: usize) -> (r: Result<u8, Error>)
    ensures
        match r {
            Ok(b) => offset < bytes@.len() && b == bytes@[offset as int],
            Err(e) => offset >= bytes@.len() && e@ == corrupt(
                path@,
                offset as int,
                "truncated frame"@,
            ),
        },
{
    if offset < bytes.len() {
        Ok(bytes[offset])
    } else {
        Err(corrupt_log(path, offset as u64, "truncated frame".to_owned()))
    }
}

fn decode_frame(
    path: &str,
    bytes: &[u8],
    at: usize,
    expected: LogSeq,
    held: usize,
    byte_cap: usize,
) -> (r: Result<LogEvent, Error>)
    requires
        at < bytes@.len(),
        held <= byte_cap,
    ensures
        match r {
            Ok(event) => frame_at(
                path@,
                bytes@,
                at as int,
                expected as int,
                held as nat,
                byte_cap,
            ) == Ok::<LogEventView, ErrorView>(event@),
            Err(e) => frame_at(path@, bytes@, at as int, expected as int, held as nat, byte_cap)
                == Err::<LogEventView, ErrorView>(e@),
        },
{
    proof {
        lemma_byte_ranges();
    }
    let len: usize = bytes.len();
    let seq: u64 = match read_number(path, bytes, at, 8) {
        Ok(n) => n,
        Err(e) => {
            return Err(e);
        },
    };
    let tag: u8 = match read_u8(path, bytes, at + 8) {
        Ok(b) => b,
        Err(e) => {
            return Err(e);
        },
    };
    let stream = match decode_stream(tag, path, at as u64) {
        Ok(s) => s,
        Err(e) => {
            return Err(e);
        },
    };
    let secs: u64 = match read_number(path, bytes, at + 9, 8) {
        Ok(n) => n,
        Err(e) => {
            return Err(e);
        },
    };
    let nanos: u64 = match read_number(path, bytes, at + 17, 4) {
        Ok(n) => n,
        Err(e) => {
            return Err(e);
        },
    };
    let data_len: u64 = match read_number(path, bytes, at + 21, 8) {
        Ok(n) => n,
        Err(e) => {
            return Err(e);
        },
    };
    if data_len > usize::MAX as u64 {
        return Err(
            corrupt_log(
                path,
                at as u64,
                "frame data length exceeds addressable memory".to_owned(),
            ),
        );
    }
    let data_at: usize = at + 29;
    let data_end: usize = match data_at.checked_add(data_len as usize) {
        None => {
            return Err(
                corrupt_log(
                    path,
                    at as u64,
                    "frame data length overflows file offset".to_owned(),
                ),
            );
        },
        Some(end) => end,
    };
    if data_end > len {
        return Err(corrupt_log(path, data_at as u64, "truncated frame data".to_owned()));
    }
    if seq != expected {
        let wanted = decimal_text(expected);
        let found = decimal_text(seq);
        let mut reason = concat_text("expected seq ", wanted.as_str());
        reason.append(", found ");
        reason.append(found.as_str());
        return Err(corrupt_log(path, at as u64, reason));
    }
    match held.checked_add(data_len as usize) {
        None => {
            return Err(Error::LogBufferOverflow { cap: byte_cap });
        },
        Some(total) => {
            if total > byte_cap {
                return Err(Error::LogBufferOverflow { cap: byte_cap });
            }
        },
    }
    let timestamp = match decode_timestamp(from_pattern(secs), nanos as u32, path, at as u64) {
        Ok(t) => t,
        Err(e) => {
            return Err(e);
        },
    };
    let data = vstd::slice::slice_subrange(bytes, data_at, data_end);
    Ok(LogEvent { seq, stream, data: bytes::Bytes::copy_from_slice(data), timestamp })
}

fn has_magic(bytes: &[u8]) -> (r: bool)
    ensures
        r == magic().is_prefix_of(bytes@),
{
    let head = file_log_magic();
    if bytes.len() < head.len() {
        return false;
    }
    let mut i: usize = 0;
    while i < head.len()
        invariant
            head@ == magic(),
            i <= head@.len() <= bytes@.len(),
            forall|k: int| 0 <= k < i ==> bytes@[k] == head@[k],
        decreases head@.len() - i,
    {
        if bytes[i] != head[i] {
            assert(bytes@.subrange(0, head@.len() as int)[i as int] != magic()[i as int]);
            return false;
        }
        i = i + 1;
    }
    assert(bytes@.subrange(0, head@.len() as int) =~= magic());
    true
}

/// The log that a file holds and its number of data bytes; or what is wrong with it.
pub fn decode_file_log(path: &str, bytes: &[u8], byte_cap: usize) -> (r: Result<
    (Vec<LogEvent>, usize),
    Error,
>)
    ensures
        match r {
            Ok((events, total)) => {
                &&& file_log(path@, bytes@, byte_cap) == Ok::<Seq<LogEventView>, ErrorView>(
                    event_views(events@),
                )
                &&& total == byte_total(event_views(events@))
                &&& total <= byte_cap
                &&& numbered(event_views(events@))
            },
            Err(e) => file_log(path@, bytes@, byte_cap) == Err::<Seq<LogEventView>, ErrorView>(e@),
        },
{
    if !has_magic(bytes) {
        return Err(corrupt_log(path, 0, "missing replay log magic header".to_owned()));
    }
    let mut offset: usize = FILE_LOG_HEADER_LEN;
    let mut events: Vec<LogEvent> = Vec::new();
    let mut total: usize = 0;
    assert(event_views(events@) =~= Seq::<LogEventView>::empty());
    while offset < bytes.len()
        invariant
            offset <= bytes@.len(),
            file_log(path@, bytes@, byte_cap) == frames_from(
                path@,
                bytes@,
                offset as nat,
                event_views(events@),
                byte_cap,
            ),
            total == byte_total(event_views(events@)),
            total <= byte_cap,
            numbered(event_views(events@)),
        decreases bytes@.len() - offset,
    {
        let ghost before = event_views(events@);
        let expected: u64 = seq_from_len(events.len());
        match decode_frame(path, bytes, offset, expected, total, byte_cap) {
            Err(e) => {
                return Err(e);
            },
            Ok(event) => {
                let data_len: usize = bytes_len(&event.data);
                offset = offset + FILE_LOG_FRAME_FIXED_LEN + data_len;
                total = total + data_len;
                events.push(event);
                proof {
                    assert(event_views(events@) =~= before.push(event@));
                    assert(before.push(event@).drop_last() =~= before);
                }
            },
        }
    }
    Ok((events, total))
}

} // verus!
