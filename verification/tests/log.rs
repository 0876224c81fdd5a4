//! Job logs: in memory and in a file.

use std::sync::Arc;

use axp::error::Error;
use axp::job::file_log::FileJobReplayLog;
use axp::job::frame::{decode_file_log, encode_frame, file_log_magic};
use axp::job::log::{
    AppendLogEvent, InMemoryJobReplayLog, JobReplayLog, LogBuffer, LogReplay, LogSeq, LogStream,
};
use axp::time::Timestamp;
use bytes::Bytes;

fn now() -> Timestamp {
    Timestamp::after_epoch(1_700_000_000, 123)
}

fn push_chunk(buf: &mut LogBuffer, data: &[u8]) -> Result<LogSeq, Error> {
    buf.push(LogStream::Stdout, Bytes::copy_from_slice(data), now())
}

fn chunk(stream: LogStream, data: &[u8], timestamp: Timestamp) -> AppendLogEvent {
    AppendLogEvent {
        stream,
        data: Bytes::copy_from_slice(data),
        timestamp,
    }
}

fn append_chunk(log: &mut InMemoryJobReplayLog, data: &[u8]) -> Result<LogSeq, Error> {
    log.append(chunk(LogStream::Stdout, data, now()))
}

#[test]
fn push_five_events_assigns_seqs_zero_to_four() {
    let mut buf = LogBuffer::new();
    for i in 0u64..5 {
        let seq = push_chunk(&mut buf, b"x").unwrap();
        assert_eq!(seq, i);
    }
    assert_eq!(buf.len(), 5);
}

#[test]
fn since_returns_suffix_slice() {
    let mut buf = LogBuffer::new();
    for _ in 0..5 {
        push_chunk(&mut buf, b"y").unwrap();
    }
    let slice = buf.since(2);
    assert_eq!(slice.len(), 3);
    assert_eq!(slice[0].seq, 2);
    assert_eq!(slice[1].seq, 3);
    assert_eq!(slice[2].seq, 4);
}

#[test]
fn since_beyond_end_returns_empty_no_panic() {
    let mut buf = LogBuffer::new();
    push_chunk(&mut buf, b"z").unwrap();
    let slice = buf.since(99);
    assert!(slice.is_empty());
}

#[test]
fn with_cap_small_within_cap_succeeds() {
    let mut buf = LogBuffer::with_cap(10);
    let seq = push_chunk(&mut buf, b"hello").unwrap();
    assert_eq!(seq, 0);
    assert_eq!(buf.len(), 1);
}

#[test]
fn with_cap_small_overflow_returns_error_and_does_not_append() {
    let mut buf = LogBuffer::with_cap(4);
    push_chunk(&mut buf, b"ab").unwrap();
    let result = push_chunk(&mut buf, b"cde");
    assert!(
        matches!(result, Err(Error::LogBufferOverflow { cap: 4 })),
        "expected LogBufferOverflow(cap=4), got {result:?}"
    );
    assert_eq!(buf.len(), 1, "event must not be appended on overflow");
    push_chunk(&mut buf, b"cd").expect("the cap itself is reached, not passed");
}

#[test]
fn subscribe_returns_a_usable_handle() {
    let mut buf = LogBuffer::new();
    push_chunk(&mut buf, b"x").unwrap();
    let handle = buf.subscribe();
    let handle2 = buf.subscribe();
    assert!(Arc::ptr_eq(&handle, &handle2));
}

#[test]
fn replay_log_append_assigns_offset_sequences() {
    let mut log = InMemoryJobReplayLog::new();
    assert_eq!(append_chunk(&mut log, b"a").unwrap(), 0);
    assert_eq!(append_chunk(&mut log, b"b").unwrap(), 1);

    let replay = log.replay_from(0);
    let seqs: Vec<LogSeq> = replay.events().iter().map(|ev| ev.seq).collect();
    assert_eq!(seqs, vec![0, 1]);
    assert_eq!(log.next_seq(), 2);
}

#[test]
fn replay_log_cursor_returns_suffix_and_empty_past_end() {
    let mut log = InMemoryJobReplayLog::new();
    for data in [b"a", b"b", b"c"] {
        append_chunk(&mut log, data).unwrap();
    }

    let replay = log.replay_from(1);
    let bytes: Vec<&[u8]> = replay.events().iter().map(|ev| ev.data.as_ref()).collect();
    assert_eq!(bytes, vec![b"b".as_slice(), b"c".as_slice()]);
    assert!(log.replay_from(99).is_empty());
}

#[test]
fn replay_log_overflow_is_fail_closed() {
    let mut log = InMemoryJobReplayLog::with_cap(3);
    append_chunk(&mut log, b"ab").unwrap();

    let result = append_chunk(&mut log, b"cd");
    assert!(
        matches!(result, Err(Error::LogBufferOverflow { cap: 3 })),
        "expected LogBufferOverflow(cap=3), got {result:?}"
    );

    let replay = log.replay_from(0);
    assert_eq!(replay.events().len(), 1);
    assert_eq!(replay.events()[0].data.as_ref(), b"ab");
    assert_eq!(log.next_seq(), 1);
}

// ── the log in a file; the file itself is a vector here ──────────────────

const PATH: &str = "job.log";

fn open(file: &mut Vec<u8>) -> Result<FileJobReplayLog, Error> {
    let head = FileJobReplayLog::bytes_to_open(file);
    file.extend_from_slice(&head);
    FileJobReplayLog::open(PATH.to_owned(), file)
}

fn write(
    log: &mut FileJobReplayLog,
    file: &mut Vec<u8>,
    event: AppendLogEvent,
) -> Result<LogSeq, Error> {
    let frame = log.frame_for(&event)?;
    file.extend_from_slice(&frame);
    log.append(event, Ok(()))
}

#[test]
fn file_replay_log_reopens_without_renumbering() {
    let mut file: Vec<u8> = Vec::new();
    let first_timestamp = Timestamp::after_epoch(42, 7);
    let second_timestamp = Timestamp::after_epoch(43, 8);
    let third_timestamp = Timestamp::after_epoch(44, 9);

    {
        let mut log = open(&mut file).unwrap();
        let first = chunk(LogStream::Stdout, b"hello\0raw", first_timestamp);
        assert_eq!(write(&mut log, &mut file, first).unwrap(), 0);
        let second = chunk(LogStream::Stderr, b"stderr", second_timestamp);
        assert_eq!(write(&mut log, &mut file, second).unwrap(), 1);
        assert_eq!(log.next_seq(), 2);
    }

    let mut reopened = open(&mut file).unwrap();
    {
        let replay = reopened.replay_from(1);
        assert_eq!(replay.events().len(), 1);
        assert_eq!(replay.events()[0].seq, 1);
        assert_eq!(replay.events()[0].stream, LogStream::Stderr);
        assert_eq!(replay.events()[0].data.as_ref(), b"stderr");
        assert_eq!(replay.events()[0].timestamp, second_timestamp);
    }
    assert_eq!(reopened.next_seq(), 2);

    let third = chunk(LogStream::Stdout, b"after-reopen", third_timestamp);
    assert_eq!(write(&mut reopened, &mut file, third).unwrap(), 2);

    let reopened_again = open(&mut file).unwrap();
    let replay = reopened_again.replay_from(0);
    let seqs: Vec<LogSeq> = replay.events().iter().map(|event| event.seq).collect();
    let bytes: Vec<&[u8]> = replay
        .events()
        .iter()
        .map(|event| event.data.as_ref())
        .collect();
    assert_eq!(seqs, vec![0, 1, 2]);
    assert_eq!(
        bytes,
        vec![
            b"hello\0raw".as_slice(),
            b"stderr".as_slice(),
            b"after-reopen".as_slice()
        ]
    );
    assert_eq!(reopened_again.next_seq(), 3);
}

#[test]
fn file_replay_log_preserves_pre_epoch_timestamp() {
    let mut file: Vec<u8> = Vec::new();
    let timestamp = Timestamp::before_epoch(2, 250);
    {
        let mut log = open(&mut file).unwrap();
        let event = chunk(LogStream::Stdout, b"before-epoch", timestamp);
        write(&mut log, &mut file, event).unwrap();
    }
    let reopened = open(&mut file).unwrap();
    let replay = reopened.replay_from(0);
    assert_eq!(replay.events()[0].timestamp, timestamp);
}

#[test]
fn file_replay_log_detects_truncated_frames() {
    let mut file = file_log_magic();
    file.extend_from_slice(&0u64.to_le_bytes());
    let result = open(&mut file);
    assert!(
        matches!(result, Err(Error::ReplayLogCorrupt { .. })),
        "expected ReplayLogCorrupt for truncated frame"
    );
}

#[test]
fn file_replay_log_overflow_is_fail_closed() {
    let mut file = FileJobReplayLog::bytes_to_open(&[]);
    let mut log = FileJobReplayLog::with_cap(PATH.to_owned(), &file, 3).ok().unwrap();
    let first = chunk(LogStream::Stdout, b"ab", now());
    write(&mut log, &mut file, first).unwrap();

    let second = chunk(LogStream::Stdout, b"cd", now());
    let result = write(&mut log, &mut file, second);
    assert!(
        matches!(result, Err(Error::LogBufferOverflow { cap: 3 })),
        "expected LogBufferOverflow(cap=3), got {result:?}"
    );
    assert_eq!(log.next_seq(), 1);
    drop(log);

    let reopened = FileJobReplayLog::with_cap(PATH.to_owned(), &file, 3).ok().unwrap();
    let replay = reopened.replay_from(0);
    assert_eq!(replay.events().len(), 1);
    assert_eq!(replay.events()[0].seq, 0);
    assert_eq!(replay.events()[0].data.as_ref(), b"ab");
    assert_eq!(reopened.next_seq(), 1);
}

#[test]
fn failed_write_leaves_the_log_and_says_so() {
    let mut file: Vec<u8> = Vec::new();
    let mut log = open(&mut file).unwrap();
    let event = chunk(LogStream::Stdout, b"x", now());
    match log.append(event, Err("disk full".to_owned())) {
        Err(Error::ReplayLogIo { path, reason }) => {
            assert_eq!(path, PATH);
            assert_eq!(reason, "disk full");
        }
        other => panic!("expected ReplayLogIo, got {other:?}"),
    }
    assert!(log.is_empty());
}

#[test]
fn file_without_the_magic_is_corrupt() {
    assert!(matches!(
        decode_file_log(PATH, b"not a log", 100),
        Err(Error::ReplayLogCorrupt { .. })
    ));
}

#[test]
fn renumbered_frame_is_corrupt() {
    let mut file = file_log_magic();
    let event = chunk(LogStream::Stdout, b"x", now());
    let frame = encode_frame(PATH, 1, &event).unwrap();
    file.extend_from_slice(&frame);
    assert!(matches!(
        decode_file_log(PATH, &file, 100),
        Err(Error::ReplayLogCorrupt { .. })
    ));
}

#[test]
fn unknown_stream_tag_is_corrupt() {
    let mut file = file_log_magic();
    let at = file.len();
    let event = chunk(LogStream::Stdout, b"x", now());
    file.extend_from_slice(&encode_frame(PATH, 0, &event).unwrap());
    let good = decode_file_log(PATH, &file, 100).ok().expect("good log");
    assert_eq!(good.0.len(), 1);
    // the tag follows the eight bytes of the position
    file[at + 8] = 7;
    assert!(matches!(
        decode_file_log(PATH, &file, 100),
        Err(Error::ReplayLogCorrupt { .. })
    ));
}

/// A failed write leaves the log as it was.
#[test]
fn failed_write_adds_no_event() {
    let mut file: Vec<u8> = Vec::new();
    let mut log = open(&mut file).unwrap();
    let lost = log.append(chunk(LogStream::Stdout, b"lost", now()), Err("disk full".to_owned()));
    assert!(matches!(lost, Err(Error::ReplayLogIo { reason, .. }) if reason == "disk full"));
    assert_eq!(log.next_seq(), 0);
    assert!(log.since(0).is_empty());
}

#[test]
fn cloned_replay_holds_the_same_events() {
    let mut log = InMemoryJobReplayLog::with_cap(10);
    append_chunk(&mut log, b"ab").unwrap();
    append_chunk(&mut log, b"c").unwrap();
    let events = log.replay_from(0).events().to_vec();
    for replay in [LogReplay::borrowed(&events), LogReplay::owned(events.clone())] {
        let copy = replay.clone();
        assert_eq!(copy.events().len(), 2);
        assert_eq!(copy.events()[1].seq, 1);
        assert_eq!(&copy.events()[0].data[..], b"ab");
    }
}
