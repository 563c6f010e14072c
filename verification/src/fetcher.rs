use vstd::prelude::*;
use crate::arith::sat64;

verus! {

/// One thing an endpoint's open stream can yield: a chunk of the given size,
/// or a transport failure. A stream that simply ends yields nothing further.
#[derive(Debug, Clone, Copy, PartialEq, Eq, Structural)]
pub enum StreamEvent {
    Chunk(u64),
    Failed,
}

/// The per-endpoint byte budget: the endpoint's content length divided by the
/// endpoint count, truncating.
pub open spec fn share_of(len: u64, count: int) -> int {
    len as int / count
}

/// Whether every chunk a stream yields is at most `bound` bytes.
pub open spec fn chunks_bounded(events: Seq<StreamEvent>, bound: u64) -> bool {
    forall|i: int|
        0 <= i < events.len() ==> (events[i] is Chunk ==> events[i]->Chunk_0 <= bound)
}

/// The final position of a fetcher starting at `pos` — `pos` plus the bytes
/// it pulls from `events` before it stops: it takes chunks one at a time,
/// stopping as soon as its position reaches `share`, as soon as the stream
/// ends, or at a transport failure.
pub open spec fn fetch_delivered(events: Seq<StreamEvent>, share: u64, pos: int) -> int
    decreases events.len(),
{
    if pos >= share {
        pos
    } else if events.len() == 0 {
        pos
    } else {
        match events[0] {
            StreamEvent::Chunk(len) => fetch_delivered(events.skip(1), share, pos + len),
            StreamEvent::Failed => pos,
        }
    }
}

/// Whether a fetcher starting at `pos` gets through `events` without hitting
/// a transport failure before its stopping point.
pub open spec fn fetch_ok(events: Seq<StreamEvent>, share: u64, pos: int) -> bool
    decreases events.len(),
{
    if pos >= share {
        true
    } else if events.len() == 0 {
        true
    } else {
        match events[0] {
            StreamEvent::Chunk(len) => fetch_ok(events.skip(1), share, pos + len),
            StreamEvent::Failed => false,
        }
    }
}

/// A fetcher never ends up with less than it started with.
pub proof fn lemma_fetch_delivered_grows(events: Seq<StreamEvent>, share: u64, pos: int)
    ensures
        fetch_delivered(events, share, pos) >= pos,
    decreases events.len(),
{
    if pos < share && events.len() > 0 {
        if events[0] is Chunk {
            lemma_fetch_delivered_grows(events.skip(1), share, pos + events[0]->Chunk_0);
        }
    }
}

proof fn lemma_fetch_overshoot_rec(events: Seq<StreamEvent>, share: u64, bound: u64, pos: int)
    requires
        chunks_bounded(events, bound),
        pos <= share + bound,
    ensures
        fetch_delivered(events, share, pos) <= share + bound,
    decreases events.len(),
{
    if pos < share && events.len() > 0 {
        if events[0] is Chunk {
            assert forall|i: int|
                0 <= i < events.skip(1).len() && events.skip(1)[i] is Chunk
                    implies events.skip(1)[i]->Chunk_0 <= bound by {
                assert(events.skip(1)[i] == events[i + 1]);
            }
            lemma_fetch_overshoot_rec(events.skip(1), share, bound, pos + events[0]->Chunk_0);
        }
    }
}

/// Law: a fetcher stops at or before its share, with at most one chunk's
/// worth of overshoot — the early-stop check happens between chunks, so if
/// no chunk exceeds `bound` bytes, the bytes it delivers never exceed
/// `share + bound`.
pub proof fn lemma_fetch_overshoot(events: Seq<StreamEvent>, share: u64, bound: u64)
    requires
        chunks_bounded(events, bound),
    ensures
        fetch_delivered(events, share, 0) <= share + bound,
{
    lemma_fetch_overshoot_rec(events, share, bound, 0);
}

/// The streaming-fetcher state for one endpoint: how many bytes it has pulled
/// so far, and the share at which it stops early. The caller that owns the
/// open stream drives it one chunk at a time.
#[derive(Debug)]
pub struct Fetcher {
    pub share: u64,
    pub position: u64,
}

impl Fetcher {
    /// A fetcher for an endpoint of the given content length among
    /// `endpoint_count` endpoints: its budget is the truncating share.
    pub fn new(content_length: u64, endpoint_count: usize) -> (r: Fetcher)
        requires
            endpoint_count > 0,
        ensures
            r.share == share_of(content_length, endpoint_count as int),
            r.position == 0,
    {
        Fetcher { share: content_length / (endpoint_count as u64), position: 0 }
    }

    /// Whether the fetcher has reached its share and must pull no more.
    pub fn is_done(&self) -> (r: bool)
        ensures
            r == (self.position >= self.share),
    {
        self.position >= self.share
    }

    /// Account one delivered chunk. The position grows by the chunk size
    /// (clamped at the counter's range) and never shrinks; the result says
    /// whether the fetcher has now reached its share and must stop.
    pub fn on_chunk(&mut self, len: u64) -> (done: bool)
        ensures
            final(self).share == old(self).share,
            final(self).position == sat64(old(self).position + len),
            final(self).position >= old(self).position,
            done == (final(self).position >= final(self).share),
    {
        if len <= u64::MAX - self.position {
            self.position = self.position + len;
        } else {
            self.position = u64::MAX;
        }
        self.position >= self.share
    }
}

} // verus!
