//! Cutting a server-sent event stream into the data of its events.
//!
//! Chunks of the stream may be cut anywhere, also within a character or between
//! the two bytes of a line end.

use vstd::prelude::*;

verus! {

/// The byte that ends a line.
pub const LINE_FEED: u8 = 10;

/// The byte that may stand before the end of a line.
pub const CARRIAGE_RETURN: u8 = 13;

/// The bytes of `data:`, with which a data line begins.
pub open spec fn data_field() -> Seq<u8> {
    seq![100u8, 97u8, 116u8, 97u8, 58u8]
}

/// A line without the carriage return at its end, where it has one.
pub open spec fn without_cr(line: Seq<u8>) -> Seq<u8> {
    if line.len() > 0 && line.last() == CARRIAGE_RETURN {
        line.drop_last()
    } else {
        line
    }
}

/// The data of a line, where it is a data line.
pub open spec fn line_data(line: Seq<u8>) -> Option<Seq<u8>> {
    let bare = without_cr(line);
    if bare.len() >= 5 && bare.take(5) == data_field() {
        Some(bare.skip(5))
    } else {
        None
    }
}

/// What an event's data becomes when one more line is read.
pub open spec fn with_line(data: Option<Seq<u8>>, line: Seq<u8>) -> Option<Seq<u8>> {
    match line_data(line) {
        None => data,
        Some(more) => match data {
            None => Some(more),
            Some(before) => Some(before.push(LINE_FEED) + more),
        },
    }
}

/// The data of an event: that of its data lines, joined by line feeds. An event
/// without data lines has none. `read` is the data of the lines before, and
/// `line` is what was read of the line at hand.
pub open spec fn event_data(event: Seq<u8>, read: Option<Seq<u8>>, line: Seq<u8>) -> Option<
    Seq<u8>,
>
    decreases event.len(),
{
    if event.len() == 0 {
        with_line(read, line)
    } else if event[0] == LINE_FEED {
        event_data(event.skip(1), with_line(read, line), Seq::empty())
    } else {
        event_data(event.skip(1), read, line.push(event[0]))
    }
}

/// The data of a whole event.
pub open spec fn data_of(event: Seq<u8>) -> Option<Seq<u8>> {
    event_data(event, None, Seq::empty())
}

/// The data of an event as a list of at most one.
pub open spec fn emitted(event: Seq<u8>) -> Seq<Seq<u8>> {
    if event.len() == 0 {
        Seq::empty()
    } else {
        match data_of(event) {
            Some(data) => seq![data],
            None => Seq::empty(),
        }
    }
}

/// Where reading a stream stands: what was read of the line at hand, the lines of
/// the event at hand, and the data of the events that are complete.
#[verifier::ext_equal]
pub struct Reading {
    pub line: Seq<u8>,
    pub event: Seq<u8>,
    pub complete: Seq<Seq<u8>>,
}

/// Reading one more byte: a line feed ends a line, and an empty line ends an
/// event.
pub open spec fn read_byte(at: Reading, byte: u8) -> Reading {
    if byte != LINE_FEED {
        Reading { line: at.line.push(byte), ..at }
    } else {
        let line = without_cr(at.line);
        if line.len() == 0 {
            Reading {
                line: Seq::empty(),
                event: Seq::empty(),
                complete: at.complete + emitted(at.event),
            }
        } else {
            Reading { line: Seq::empty(), event: (at.event + line).push(LINE_FEED), ..at }
        }
    }
}

/// Reading more bytes.
pub open spec fn read_bytes(at: Reading, bytes: Seq<u8>) -> Reading
    decreases bytes.len(),
{
    if bytes.len() == 0 {
        at
    } else {
        read_byte(read_bytes(at, bytes.drop_last()), bytes.last())
    }
}

/// Before anything is read.
pub open spec fn unread() -> Reading {
    Reading { line: Seq::empty(), event: Seq::empty(), complete: Seq::empty() }
}

/// The data of the events of a whole stream: the stream's end also ends the event
/// at hand.
pub open spec fn stream_data(bytes: Seq<u8>) -> Seq<Seq<u8>> {
    let at = read_bytes(unread(), bytes);
    at.complete + emitted(at.event + at.line)
}

/// The bytes of each vector of a list.
pub open spec fn contents(list: Seq<Vec<u8>>) -> Seq<Seq<u8>> {
    Seq::new(list.len(), |i: int| list[i]@)
}

fn append_line(event: &mut Vec<u8>, line: &Vec<u8>, len: usize)
    requires
        len <= line@.len(),
    ensures
        final(event)@ == (old(event)@ + line@.take(len as int)),
{
    let ghost before = event@;
    let mut i: usize = 0;
    assert(line@.take(0) =~= Seq::<u8>::empty());
    while i < len
        invariant
            i <= len <= line@.len(),
            event@ == before + line@.take(i as int),
        decreases len - i,
    {
        event.push(line[i]);
        assert(line@.take(i + 1) =~= line@.take(i as int).push(line@[i as int]));
        i = i + 1;
    }
}

/// Whether a run of bytes is a data line.
fn is_data_line(line: &Vec<u8>) -> (r: bool)
    ensures
        r == (line@.len() >= 5 && line@.take(5) == data_field()),
{
    if line.len() < 5 {
        return false;
    }
    let r = line[0] == 100 && line[1] == 97 && line[2] == 116 && line[3] == 97 && line[4] == 58;
    proof {
        let head = line@.take(5);
        assert(head[0] == line@[0] && head[1] == line@[1] && head[2] == line@[2] && head[3]
            == line@[3] && head[4] == line@[4]);
        if r {
            assert(head =~= data_field());
        }
    }
    r
}

fn take_line(data: Option<Vec<u8>>, line: Vec<u8>) -> (r: Option<Vec<u8>>)
    ensures
        (match r {
            Some(bytes) => Some(bytes@),
            None => None,
        }) == with_line(
            match data {
                Some(bytes) => Some(bytes@),
                None => None,
            },
            line@,
        ),
{
    let mut bare = line;
    if bare.len() > 0 && bare[bare.len() - 1] == CARRIAGE_RETURN {
        let _ = bare.pop();
    }
    assert(bare@ =~= without_cr(line@));
    if !is_data_line(&bare) {
        return data;
    }
    let mut joined: Vec<u8> = match data {
        None => Vec::new(),
        Some(before) => {
            let mut before = before;
            before.push(LINE_FEED);
            before
        },
    };
    let ghost head = joined@;
    let mut i: usize = 5;
    assert(bare@.skip(5).take(0) =~= Seq::<u8>::empty());
    while i < bare.len()
        invariant
            5 <= i <= bare@.len(),
            joined@ == head + bare@.skip(5).take(i - 5),
        decreases bare@.len() - i,
    {
        joined.push(bare[i]);
        assert(bare@.skip(5).take(i - 4) =~= bare@.skip(5).take(i - 5).push(bare@[i as int]));
        i = i + 1;
    }
    assert(bare@.skip(5).take(bare@.len() - 5) =~= bare@.skip(5));
    assert(data is None ==> joined@ =~= bare@.skip(5));
    Some(joined)
}

/// The data of an event, where it has data lines.
pub fn decode_sse_event(event: &Vec<u8>) -> (r: Option<Vec<u8>>)
    ensures
        (match r {
            Some(bytes) => Some(bytes@),
            None => None,
        }) == data_of(event@),
{
    let mut data: Option<Vec<u8>> = None;
    let mut line: Vec<u8> = Vec::new();
    let mut i: usize = 0;
    assert(event@.skip(0) =~= event@);
    assert(line@ =~= Seq::<u8>::empty());
    while i < event.len()
        invariant
            i <= event@.len(),
            data_of(event@) == event_data(
                event@.skip(i as int),
                match data {
                    Some(bytes) => Some(bytes@),
                    None => None,
                },
                line@,
            ),
        decreases event@.len() - i,
    {
        let byte: u8 = event[i];
        let ghost rest = event@.skip(i as int);
        assert(rest[0] == byte);
        assert(rest.skip(1) =~= event@.skip(i + 1));
        if byte == LINE_FEED {
            data = take_line(data, line);
            line = Vec::new();
            assert(line@ =~= Seq::<u8>::empty());
        } else {
            line.push(byte);
        }
        i = i + 1;
    }
    assert(event@.skip(i as int) =~= Seq::<u8>::empty());
    take_line(data, line)
}

/// Cuts a stream into the data of its events, chunk by chunk.
#[derive(Debug)]
pub struct SseFrameDecoder {
    pending: Vec<u8>,
    current: Vec<u8>,
}

impl Default for SseFrameDecoder {
    fn default() -> (r: Self)
        ensures
            r.reading() == unread(),
    {
        let r = SseFrameDecoder { pending: Vec::new(), current: Vec::new() };
        assert(r.reading() =~= unread());
        r
    }
}

fn emit(event: &Vec<u8>, complete: &mut Vec<Vec<u8>>)
    ensures
        contents(final(complete)@) == contents(old(complete)@) + emitted(event@),
{
    let ghost before = contents(complete@);
    if event.len() > 0 {
        if let Some(data) = decode_sse_event(event) {
            complete.push(data);
            assert(contents(complete@) =~= before + seq![data@]);
        } else {
            assert(contents(complete@) =~= before + Seq::<Seq<u8>>::empty());
        }
    } else {
        assert(contents(complete@) =~= before + Seq::<Seq<u8>>::empty());
    }
}

impl SseFrameDecoder {
    /// Where reading stands; what is complete was handed out.
    pub closed spec fn reading(&self) -> Reading {
        Reading { line: self.pending@, event: self.current@, complete: Seq::empty() }
    }

    /// Take in a chunk; the data of the events that it completes comes back.
    pub fn push(&mut self, bytes: &[u8]) -> (r: Vec<Vec<u8>>)
        ensures
            ({
                let at = read_bytes(old(self).reading(), bytes@);
                &&& contents(r@) == at.complete
                &&& final(self).reading() == (Reading { complete: Seq::empty(), ..at })
            }),
    {
        let mut complete: Vec<Vec<u8>> = Vec::new();
        let ghost start = self.reading();
        let mut i: usize = 0;
        proof {
            assert(bytes@.take(0) =~= Seq::<u8>::empty());
            assert(contents(complete@) =~= Seq::<Seq<u8>>::empty());
        }
        while i < bytes.len()
            invariant
                i <= bytes@.len(),
                read_bytes(start, bytes@.take(i as int)) == (Reading {
                    line: self.pending@,
                    event: self.current@,
                    complete: contents(complete@),
                }),
            decreases bytes@.len() - i,
        {
            let byte: u8 = bytes[i];
            let ghost at = read_bytes(start, bytes@.take(i as int));
            proof {
                assert(bytes@.take(i + 1).drop_last() =~= bytes@.take(i as int));
                assert(bytes@.take(i + 1).last() == byte);
            }
            if byte != LINE_FEED {
                self.pending.push(byte);
            } else {
                let n: usize = self.pending.len();
                let len: usize = if n > 0 && self.pending[n - 1] == CARRIAGE_RETURN {
                    n - 1
                } else {
                    n
                };
                assert(self.pending@.take(len as int) =~= without_cr(at.line));
                if len == 0 {
                    emit(&self.current, &mut complete);
                    self.current = Vec::new();
                } else {
                    append_line(&mut self.current, &self.pending, len);
                    self.current.push(LINE_FEED);
                }
                self.pending = Vec::new();
                assert(self.pending@ =~= Seq::<u8>::empty());
            }
            proof {
                let now = Reading {
                    line: self.pending@,
                    event: self.current@,
                    complete: contents(complete@),
                };
                assert(now =~= read_byte(at, byte));
            }
            i = i + 1;
        }
        assert(bytes@.take(bytes@.len() as int) =~= bytes@);
        complete
    }

    /// End the stream; the data of the event at hand comes back, where it has some.
    pub fn finish(self) -> (r: Vec<Vec<u8>>)
        ensures
            contents(r@) == emitted(self.reading().event + self.reading().line),
    {
        let mut complete: Vec<Vec<u8>> = Vec::new();
        let mut current = self.current;
        let len: usize = self.pending.len();
        append_line(&mut current, &self.pending, len);
        assert(self.pending@.take(len as int) =~= self.pending@);
        emit(&current, &mut complete);
        assert(contents(complete@) =~= emitted(current@));
        complete
    }
}

/// The data of the events of a whole stream.
pub fn parse_sse_frames(body: &[u8]) -> (r: Vec<Vec<u8>>)
    ensures
        contents(r@) == stream_data(body@),
{
    let mut decoder = SseFrameDecoder::default();
    let mut frames = decoder.push(body);
    let ghost first = contents(frames@);
    let mut rest = decoder.finish();
    let ghost last = contents(rest@);
    frames.append(&mut rest);
    assert(contents(frames@) =~= first + last);
    frames
}

proof fn lemma_reading_carries_on(at: Reading, complete: Seq<Seq<u8>>, bytes: Seq<u8>)
    requires
        at.complete == Seq::<Seq<u8>>::empty(),
    ensures
        read_bytes(Reading { complete, ..at }, bytes) == (Reading {
            complete: complete + read_bytes(at, bytes).complete,
            ..read_bytes(at, bytes)
        }),
    decreases bytes.len(),
{
    if bytes.len() == 0 {
        assert(complete + at.complete =~= complete);
    } else {
        lemma_reading_carries_on(at, complete, bytes.drop_last());
        let before = read_bytes(at, bytes.drop_last());
        assert((complete + before.complete) + emitted(before.event) =~= complete + (before.complete
            + emitted(before.event)));
    }
}

/// A stream gives the same events however it is cut into chunks: reading two
/// chunks is reading both at once.
pub proof fn cutting_a_stream_changes_nothing(at: Reading, first: Seq<u8>, second: Seq<u8>)
    ensures
        read_bytes(at, first + second) == read_bytes(read_bytes(at, first), second),
    decreases second.len(),
{
    if second.len() == 0 {
        assert(first + second =~= first);
    } else {
        assert((first + second).drop_last() =~= first + second.drop_last());
        assert((first + second).last() == second.last());
        cutting_a_stream_changes_nothing(at, first, second.drop_last());
    }
}

/// What a decoder hands out over two chunks and the end is what the whole stream
/// holds.
pub proof fn decoding_in_two_chunks_gives_the_stream(first: Seq<u8>, second: Seq<u8>)
    ensures
        ({
            let one = read_bytes(unread(), first);
            let two = read_bytes(Reading { complete: Seq::empty(), ..one }, second);
            one.complete + two.complete + emitted(two.event + two.line) == stream_data(
                first + second,
            )
        }),
{
    let one = read_bytes(unread(), first);
    let kept = Reading { complete: Seq::empty(), ..one };
    cutting_a_stream_changes_nothing(unread(), first, second);
    lemma_reading_carries_on(kept, one.complete, second);
    assert(Reading { complete: one.complete, ..kept } =~= one);
}

/// Whether bytes hold no line feed.
pub open spec fn one_line(bytes: Seq<u8>) -> bool {
    forall|i: int| 0 <= i < bytes.len() ==> #[trigger] bytes[i] != LINE_FEED
}

proof fn lemma_reading_within_a_line(at: Reading, run: Seq<u8>)
    requires
        one_line(run),
    ensures
        read_bytes(at, run) == (Reading { line: at.line + run, ..at }),
    decreases run.len(),
{
    if run.len() == 0 {
        assert(at.line + run =~= at.line);
    } else {
        assert forall|i: int| 0 <= i < run.drop_last().len() implies #[trigger] run.drop_last()[i]
            != LINE_FEED by {
            assert(run.drop_last()[i] == run[i]);
        }
        lemma_reading_within_a_line(at, run.drop_last());
        assert((at.line + run.drop_last()).push(run.last()) =~= at.line + run);
        assert(run[run.len() - 1] != LINE_FEED);
    }
}

proof fn lemma_event_within_a_line(
    run: Seq<u8>,
    rest: Seq<u8>,
    read: Option<Seq<u8>>,
    line: Seq<u8>,
)
    requires
        one_line(run),
    ensures
        event_data(run + rest, read, line) == event_data(rest, read, line + run),
    decreases run.len(),
{
    if run.len() == 0 {
        assert(run + rest =~= rest);
        assert(line + run =~= line);
    } else {
        assert((run + rest).skip(1) =~= run.skip(1) + rest);
        assert(run[0] != LINE_FEED);
        assert forall|i: int| 0 <= i < run.skip(1).len() implies #[trigger] run.skip(1)[i]
            != LINE_FEED by {
            assert(run.skip(1)[i] == run[i + 1]);
        }
        lemma_event_within_a_line(run.skip(1), rest, read, line.push(run[0]));
        assert(line.push(run[0]) + run.skip(1) =~= line + run);
    }
}

/// An event as a server writes it: a first line of some other field, a data line
/// and the empty line that ends it.
pub open spec fn written_event(field: Seq<u8>, data: Seq<u8>) -> Seq<u8> {
    field.push(LINE_FEED) + (data_field() + data).push(LINE_FEED).push(LINE_FEED)
}

/// A stream that holds one written event gives the data of that event.
pub proof fn written_event_is_read(field: Seq<u8>, data: Seq<u8>)
    requires
        one_line(field),
        field.len() > 0,
        field.last() != CARRIAGE_RETURN,
        line_data(field) is None,
        one_line(data),
        data.len() > 0 ==> data.last() != CARRIAGE_RETURN,
    ensures
        stream_data(written_event(field, data)) == seq![data],
{
    let second = data_field() + data;
    let lf = seq![LINE_FEED];
    assert(one_line(second)) by {
        assert forall|i: int| 0 <= i < second.len() implies #[trigger] second[i] != LINE_FEED by {
            if i >= 5 {
                assert(second[i] == data[i - 5]);
            }
        }
    }
    assert(second.last() != CARRIAGE_RETURN) by {
        if data.len() > 0 {
            assert(second.last() == data.last());
        } else {
            assert(second =~= data_field());
        }
    }
    // the field line
    lemma_reading_within_a_line(unread(), field);
    let a = Reading { line: field, ..unread() };
    assert(unread().line + field =~= field);
    assert(field + lf =~= field.push(LINE_FEED));
    assert(lf.drop_last() =~= Seq::<u8>::empty());
    cutting_a_stream_changes_nothing(unread(), field, lf);
    let event_one = (Seq::<u8>::empty() + field).push(LINE_FEED);
    let b = Reading { line: Seq::empty(), event: event_one, complete: Seq::empty() };
    assert(read_bytes(a, Seq::<u8>::empty()) == a);
    assert(read_bytes(a, lf) == read_byte(a, LINE_FEED));
    assert(read_byte(a, LINE_FEED) =~= b);
    // the data line
    lemma_reading_within_a_line(b, second);
    assert(b.line + second =~= second);
    let c = Reading { line: second, ..b };
    assert(read_bytes(c, lf) == read_byte(c, LINE_FEED)) by {
        assert(read_bytes(c, Seq::<u8>::empty()) == c);
    }
    let event_two = (event_one + second).push(LINE_FEED);
    let d = Reading { line: Seq::empty(), event: event_two, complete: Seq::empty() };
    assert(read_byte(c, LINE_FEED) =~= d);
    cutting_a_stream_changes_nothing(b, second, lf);
    assert(second + lf =~= second.push(LINE_FEED));
    assert(read_bytes(b, second.push(LINE_FEED)) == d);
    // the empty line
    assert(read_bytes(d, lf) == read_byte(d, LINE_FEED)) by {
        assert(read_bytes(d, Seq::<u8>::empty()) == d);
    }
    cutting_a_stream_changes_nothing(b, second.push(LINE_FEED), lf);
    assert(second.push(LINE_FEED) + lf =~= second.push(LINE_FEED).push(LINE_FEED));
    cutting_a_stream_changes_nothing(
        unread(),
        field.push(LINE_FEED),
        second.push(LINE_FEED).push(LINE_FEED),
    );
    let end = read_bytes(unread(), written_event(field, data));
    assert(end == read_byte(d, LINE_FEED));
    // the data of the event
    let tail = (second.push(LINE_FEED));
    assert(event_two =~= field + (lf + tail));
    lemma_event_within_a_line(field, lf + tail, None, Seq::empty());
    assert((lf + tail).skip(1) =~= tail);
    assert(Seq::<u8>::empty() + field =~= field);
    assert(event_data(lf + tail, None, field) == event_data(tail, None, Seq::empty()));
    assert(tail =~= second + lf);
    lemma_event_within_a_line(second, lf, None, Seq::empty());
    assert(Seq::<u8>::empty() + second =~= second);
    assert(lf.skip(1) =~= Seq::<u8>::empty());
    assert(without_cr(second) == second);
    assert(second.take(5) =~= data_field());
    assert(second.skip(5) =~= data);
    assert(with_line(None, second) == Some(data));
    assert(without_cr(Seq::<u8>::empty()).len() == 0);
    assert(event_data(lf, None, second) == event_data(lf.skip(1), Some(data), Seq::empty()));
    assert(data_of(event_two) == Some(data));
    assert(end.complete =~= seq![data]);
    assert(end.event + end.line =~= Seq::<u8>::empty());
    assert(stream_data(written_event(field, data)) =~= seq![data]);
}

/// A data line holds what follows its field, up to the carriage return that may
/// end it; no other line holds data.
pub proof fn data_lines_hold_their_data(line: Seq<u8>, data: Seq<u8>)
    requires
        data.len() > 0 ==> data.last() != 13,
    ensures
        line_data(seq![100u8, 97u8, 116u8, 97u8, 58u8] + data) == Some(data),
        line_data((seq![100u8, 97u8, 116u8, 97u8, 58u8] + data).push(13u8)) == Some(data),
        line_data(line) matches Some(held) ==> line == seq![100u8, 97u8, 116u8, 97u8, 58u8] + held
            || line == (seq![100u8, 97u8, 116u8, 97u8, 58u8] + held).push(13u8),
{
    let field = seq![100u8, 97u8, 116u8, 97u8, 58u8];
    let plain = field + data;
    assert(without_cr(plain) == plain) by {
        if data.len() == 0 {
            assert(plain.last() == 58);
        } else {
            assert(plain.last() == data.last());
        }
    }
    assert(plain.take(5) =~= data_field());
    assert(plain.skip(5) =~= data);
    assert(plain.push(13u8).drop_last() =~= plain);
    if let Some(held) = line_data(line) {
        let bare = without_cr(line);
        assert(bare =~= field + held) by {
            assert(bare.take(5) + bare.skip(5) =~= bare);
        }
        if bare != line {
            assert(line =~= bare.push(13u8));
        }
    }
}

/// The data lines of an event are joined by line feeds, in their order.
pub proof fn data_lines_are_joined(
    before: Option<Seq<u8>>,
    line: Seq<u8>,
    data: Seq<u8>,
)
    requires
        line_data(line) == Some(data),
    ensures
        with_line(None, line) == Some(data),
        before matches Some(had) ==> with_line(before, line) == Some(had + seq![10u8] + data),
{
    if let Some(had) = before {
        assert(had.push(10u8) + data =~= had + seq![10u8] + data);
    }
}

/// Events come one after the other: after a whole event a stream goes on as if it
/// had only begun, with the data of that event given first.
pub proof fn events_come_one_after_the_other(field: Seq<u8>, data: Seq<u8>, rest: Seq<u8>)
    requires
        one_line(field),
        field.len() > 0,
        field.last() != CARRIAGE_RETURN,
        line_data(field) is None,
        one_line(data),
        data.len() > 0 ==> data.last() != CARRIAGE_RETURN,
    ensures
        stream_data(written_event(field, data) + rest) == seq![data] + stream_data(rest),
{
    let first = written_event(field, data);
    written_event_is_read(field, data);
    lemma_written_event_leaves_nothing(field, data);
    let at = read_bytes(unread(), first);
    cutting_a_stream_changes_nothing(unread(), first, rest);
    lemma_reading_carries_on(unread(), at.complete, rest);
    assert(Reading { complete: at.complete, ..unread() } =~= at);
    let after = read_bytes(unread(), rest);
    assert(at.complete =~= seq![data]) by {
        assert(emitted(at.event + at.line) =~= Seq::<Seq<u8>>::empty());
        assert(stream_data(first) =~= at.complete);
    }
    assert(stream_data(first + rest) =~= seq![data] + stream_data(rest));
}

proof fn lemma_written_event_leaves_nothing(field: Seq<u8>, data: Seq<u8>)
    ensures
        read_bytes(unread(), written_event(field, data)).line == Seq::<u8>::empty(),
        read_bytes(unread(), written_event(field, data)).event == Seq::<u8>::empty()
            || !one_line(field) || !one_line(data) || (data.len() > 0 && data.last()
            == CARRIAGE_RETURN) || field.len() == 0,
{
    let bytes = written_event(field, data);
    let body = field.push(LINE_FEED) + (data_field() + data).push(LINE_FEED);
    assert(bytes =~= body.push(LINE_FEED));
    assert(bytes.drop_last() =~= body);
    let inner = field.push(LINE_FEED) + (data_field() + data);
    assert(body =~= inner.push(LINE_FEED));
    assert(body.drop_last() =~= inner);
    let before = read_bytes(unread(), inner);
    assert(read_bytes(unread(), body) == read_byte(before, LINE_FEED));
    assert(read_bytes(unread(), body).line == Seq::<u8>::empty());
}

} // verus!
