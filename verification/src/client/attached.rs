//! An attached event stream on the client side.

use std::collections::VecDeque;

use vstd::prelude::*;

use crate::client::sse::{contents, emitted, read_bytes, unread, Reading, SseFrameDecoder};
use crate::text::{decimal, decimal_text};

verus! {

/// Options of attaching to a job's log.
#[derive(Debug, Clone, Copy, PartialEq, Eq, Structural)]
#[non_exhaustive]
pub struct AttachJobOptions {
    /// The last event id that is sent as a resume header, where one is sent. It
    /// counts for more than the offset of the request.
    pub last_event_id: Option<u64>,
}

impl Default for AttachJobOptions {
    fn default() -> (r: Self)
        ensures
            r.last_event_id is None,
    {
        AttachJobOptions { last_event_id: None }
    }
}

impl AttachJobOptions {
    /// Create default options.
    pub fn new() -> (r: Self)
        ensures
            r.last_event_id is None,
    {
        AttachJobOptions { last_event_id: None }
    }

    /// Send a last event id.
    pub fn with_last_event_id(self, last_event_id: u64) -> (r: Self)
        ensures
            r.last_event_id == Some(last_event_id),
    {
        AttachJobOptions { last_event_id: Some(last_event_id) }
    }

    /// The resume header, where one is sent.
    pub fn resume_header(&self) -> (r: Option<String>)
        ensures
            match r {
                Some(text) => self.last_event_id matches Some(id) && text@ == decimal(id as nat),
                None => self.last_event_id is None,
            },
    {
        match self.last_event_id {
            Some(id) => Some(decimal_text(id)),
            None => None,
        }
    }
}

/// The data of the events of an attached stream that were received and not yet
/// handed out.
#[derive(Debug)]
pub struct AttachedJob {
    decoder: SseFrameDecoder,
    pending: VecDeque<Vec<u8>>,
}

impl AttachedJob {
    /// What was received and not handed out, oldest first.
    pub closed spec fn waiting(&self) -> Seq<Seq<u8>> {
        contents(self.pending@)
    }

    /// Where reading the stream stands.
    pub closed spec fn reading(&self) -> Reading {
        self.decoder.reading()
    }

    /// Nothing received yet.
    pub fn new() -> (r: Self)
        ensures
            r.waiting() == Seq::<Seq<u8>>::empty(),
            r.reading() == unread(),
    {
        let r = AttachedJob { decoder: SseFrameDecoder::default(), pending: VecDeque::new() };
        assert(r.waiting() =~= Seq::<Seq<u8>>::empty());
        r
    }

    fn enqueue(&mut self, frames: Vec<Vec<u8>>)
        ensures
            final(self).waiting() == old(self).waiting() + contents(frames@),
            final(self).reading() == old(self).reading(),
    {
        let ghost before = self.waiting();
        let ghost all = frames@;
        let mut rest = frames;
        assert(before + contents(all.take(0)) =~= before);
        let count: usize = rest.len();
        let mut i: usize = 0;
        while i < count
            invariant
                i <= count == all.len(),
                rest@ == all.skip(i as int),
                self.waiting() == before + contents(all.take(i as int)),
                self.reading() == old(self).reading(),
            decreases count - i,
        {
            let ghost held = self.waiting();
            let frame = rest.remove(0);
            assert(frame == all[i as int]);
            assert(rest@ =~= all.skip(i + 1));
            self.pending.push_back(frame);
            assert(self.waiting() =~= held.push(frame@));
            assert(contents(all.take(i + 1)) =~= contents(all.take(i as int)).push(frame@));
            i = i + 1;
        }
        assert(all.take(count as int) =~= all);
    }

    /// Hand out the oldest data that waits.
    pub fn next_frame(&mut self) -> (r: Option<Vec<u8>>)
        ensures
            final(self).reading() == old(self).reading(),
            match r {
                Some(data) => {
                    &&& old(self).waiting().len() > 0
                    &&& data@ == old(self).waiting()[0]
                    &&& final(self).waiting() == old(self).waiting().skip(1)
                },
                None => old(self).waiting().len() == 0 && final(self).waiting()
                    == old(self).waiting(),
            },
    {
        let ghost before = self.pending@;
        let r = self.pending.pop_front();
        proof {
            if before.len() > 0 {
                assert(contents(self.pending@) =~= contents(before).skip(1));
            }
        }
        r
    }

    /// Take in a chunk of the stream.
    pub fn receive(&mut self, chunk: &[u8])
        ensures
            ({
                let at = read_bytes(old(self).reading(), chunk@);
                &&& final(self).waiting() == old(self).waiting() + at.complete
                &&& final(self).reading() == (Reading { complete: Seq::empty(), ..at })
            }),
    {
        let frames = self.decoder.push(chunk);
        self.enqueue(frames);
    }

    /// The stream has ended.
    pub fn end(&mut self)
        ensures
            final(self).waiting() == old(self).waiting() + emitted(
                old(self).reading().event + old(self).reading().line,
            ),
            final(self).reading() == unread(),
    {
        let mut ended = SseFrameDecoder::default();
        std::mem::swap(&mut ended, &mut self.decoder);
        let frames = ended.finish();
        self.enqueue(frames);
    }
}

} // verus!
