//! The state of a response that streams in (server-sent events): what the
//! window keeps of it as chunks arrive. Events of a stream that is no longer
//! the current one are dropped; a plain (non-stream) response waits for its
//! end instead; the kept body stops growing at a fixed size.

use vstd::prelude::*;
use crate::model::{count_event_breaks, event_breaks_from};
use crate::send::{newline_count, next_mark_line, law_marks_add_up};
use crate::panes::marks_sorted;
use crate::text::text_eq;

verus! {

/// How many bytes of an event stream the window keeps; the stream may be
/// endless.
pub const MAX_STREAM_BYTES: usize = 2097152;

/// A notice shown above a streamed body.
#[derive(Debug, Clone, Copy, PartialEq, Eq, Structural)]
pub enum StreamNotice {
    /// The user stopped the stream.
    Stopped,
    /// The kept body reached its size limit.
    Truncated,
}

/// The state of the current stream.
pub struct StreamState {
    /// Id of the request whose stream this is.
    pub req: Option<String>,
    /// The response is an event stream being shown as it arrives.
    pub live: bool,
    /// Events seen so far (blank lines between them).
    pub events: usize,
    /// Bytes received so far.
    pub bytes: usize,
    /// The body kept so far.
    pub body: Vec<u8>,
    /// Lines of the kept body so far.
    pub lines: usize,
    /// For each kept chunk: the line it starts on and its arrival time.
    pub marks: Vec<(usize, String)>,
    pub notice: Option<StreamNotice>,
}

/// The marks are in line order and none lies past the line count.
pub open spec fn marks_ok(marks: Seq<(usize, String)>, lines: usize) -> bool {
    marks_sorted(marks) && forall|k: int| 0 <= k < marks.len() ==> (#[trigger] marks[k]).0 <= lines
}

impl StreamState {
    /// The state is consistent: see [`marks_ok`].
    pub open spec fn wf(&self) -> bool {
        marks_ok(self.marks@, self.lines)
    }

    /// The state when the request `req_id` is sent: nothing received yet.
    pub fn start(req_id: String) -> (s: Self)
        ensures
            s.wf(),
            s.req == Some(req_id),
            !s.live,
            s.events == 0,
            s.bytes == 0,
            s.body@.len() == 0,
            s.lines == 0,
            s.marks@.len() == 0,
            s.notice is None,
    {
        StreamState {
            req: Some(req_id),
            live: false,
            events: 0,
            bytes: 0,
            body: Vec::new(),
            lines: 0,
            marks: Vec::new(),
            notice: None,
        }
    }

    /// Whether an event belongs to the current stream.
    pub open spec fn is_current(&self, id: Seq<char>) -> bool {
        self.req matches Some(r) && r@ == id
    }

    fn current(&self, id: &str) -> (r: bool)
        ensures
            r == self.is_current(id@),
    {
        match &self.req {
            Some(r) => crate::text::text_eq(r.as_str(), id),
            None => false,
        }
    }

    /// The response head arrived. When it is the current stream and an event
    /// stream, the body is shown from now on as it arrives (`true`: show an
    /// empty response now); otherwise nothing changes.
    pub fn on_head(&mut self, id: &str, is_event_stream: bool) -> (shown: bool)
        requires
            old(self).wf(),
        ensures
            final(self).wf(),
            shown == (old(self).is_current(id@) && is_event_stream),
            shown ==> final(self).live && final(self).body@.len() == 0 && final(self).req == old(self).req
                && final(self).events == old(self).events && final(self).bytes == old(self).bytes
                && final(self).lines == old(self).lines && final(self).marks@ == old(self).marks@
                && final(self).notice == old(self).notice,
            !shown ==> *final(self) == *old(self),
    {
        if self.current(id) && is_event_stream {
            self.live = true;
            self.body = Vec::new();
            true
        } else {
            false
        }
    }

    /// A chunk of the body arrived at time `arrived`. Only the current live
    /// stream takes it: bytes and events are counted; while the kept body is
    /// under [`MAX_STREAM_BYTES`] the chunk is kept with a mark of the line it
    /// starts on; past it the chunk is dropped and the truncation notice
    /// raised, unless another notice is up.
    pub fn on_chunk(&mut self, id: &str, chunk: &[u8], arrived: String)
        requires
            old(self).wf(),
            old(self).bytes + chunk@.len() <= usize::MAX,
            old(self).events + chunk@.len() <= usize::MAX,
            old(self).body@.len() + chunk@.len() <= usize::MAX,
            old(self).lines + chunk@.len() <= usize::MAX,
        ensures
            final(self).wf(),
            !(old(self).is_current(id@) && old(self).live) ==> *final(self) == *old(self),
            old(self).is_current(id@) && old(self).live ==> {
                &&& final(self).req == old(self).req
                &&& final(self).live
                &&& final(self).bytes == old(self).bytes + chunk@.len()
                &&& final(self).events == old(self).events + event_breaks_from(chunk@, 0)
                &&& old(self).body@.len() < MAX_STREAM_BYTES ==> {
                    &&& final(self).body@ == old(self).body@ + chunk@
                    &&& final(self).lines == old(self).lines + newline_count(chunk@)
                    &&& final(self).marks@ == old(self).marks@.push((old(self).lines, arrived))
                    &&& final(self).notice == old(self).notice
                }
                &&& old(self).body@.len() >= MAX_STREAM_BYTES ==> {
                    &&& final(self).body@ == old(self).body@
                    &&& final(self).lines == old(self).lines
                    &&& final(self).marks@ == old(self).marks@
                    &&& final(self).notice == if old(self).notice is None {
                        Some(StreamNotice::Truncated)
                    } else {
                        old(self).notice
                    }
                }
            },
    {
        if !self.current(id) || !self.live {
            return;
        }
        proof {
            lemma_event_breaks_le(chunk@, 0);
            lemma_newline_count_le(chunk@);
        }
        self.bytes = self.bytes + chunk.len();
        self.events = self.events + count_event_breaks(chunk);
        let truncated = self.body.len() >= MAX_STREAM_BYTES;
        if !truncated {
            let ghost body0 = self.body@;
            let ghost marks0 = self.marks@;
            let ghost lines0 = self.lines;
            let mut lines = self.lines;
            let mark = next_mark_line(&mut lines, chunk);
            self.lines = lines;
            self.marks.push((mark, arrived));
            proof {
                assert(marks_sorted(self.marks@)) by {
                    assert forall|i: int, j: int| 0 <= i <= j < self.marks@.len() implies (#[trigger] self.marks@[i]).0
                        <= (#[trigger] self.marks@[j]).0 by {
                        if j < marks0.len() {
                            assert(self.marks@[i] == marks0[i] && self.marks@[j] == marks0[j]);
                        } else if i < marks0.len() {
                            assert(self.marks@[i] == marks0[i]);
                            assert(marks0[i].0 <= lines0);
                        }
                    }
                }
                assert forall|k: int| 0 <= k < self.marks@.len() implies (#[trigger] self.marks@[k]).0 <= self.lines by {
                    if k < marks0.len() {
                        assert(self.marks@[k] == marks0[k]);
                    }
                }
            }
            let mut body: Vec<u8> = Vec::new();
            std::mem::swap(&mut body, &mut self.body);
            let mut k: usize = 0;
            while k < chunk.len()
                invariant
                    k <= chunk@.len(),
                    body0.len() + chunk@.len() <= usize::MAX,
                    body@ == body0 + chunk@.take(k as int),
                decreases chunk@.len() - k,
            {
                body.push(chunk[k]);
                proof {
                    assert(chunk@.take(k + 1) =~= chunk@.take(k as int).push(chunk@[k as int]));
                    assert(body@ =~= body0 + chunk@.take(k + 1));
                }
                k = k + 1;
            }
            proof {
                assert(chunk@.take(k as int) =~= chunk@);
            }
            self.body = body;
        }
        if truncated && self.notice.is_none() {
            self.notice = Some(StreamNotice::Truncated);
        }
    }

    /// The user stopped the stream: the notice says so; the rest stays.
    pub fn stop(&mut self)
        requires
            old(self).wf(),
        ensures
            final(self).wf(),
            final(self).notice == Some(StreamNotice::Stopped),
            final(self).req == old(self).req,
            final(self).live == old(self).live,
            final(self).events == old(self).events,
            final(self).bytes == old(self).bytes,
            final(self).body@ == old(self).body@,
            final(self).lines == old(self).lines,
            final(self).marks@ == old(self).marks@,
    {
        self.notice = Some(StreamNotice::Stopped);
    }
}

/// How many bytes of a plain (non-stream) response the window keeps: it
/// arrives whole, so the limit is high and the size shown is the real one.
pub const MAX_BODY_BYTES: usize = 67108864;

/// The most of a finished body that is kept: an event stream's limit, or
/// that of a plain response.
pub open spec fn body_cap(is_event_stream: bool) -> usize {
    if is_event_stream {
        MAX_STREAM_BYTES
    } else {
        MAX_BODY_BYTES
    }
}

/// Cuts a finished response body to what is kept (see [`body_cap`]); says
/// whether anything was cut off.
pub fn cap_body(body: &mut Vec<u8>, is_event_stream: bool) -> (cut: bool)
    ensures
        cut == (old(body)@.len() > body_cap(is_event_stream)),
        final(body)@ == if cut {
            old(body)@.take(body_cap(is_event_stream) as int)
        } else {
            old(body)@
        },
{
    let cap = if is_event_stream {
        MAX_STREAM_BYTES
    } else {
        MAX_BODY_BYTES
    };
    if body.len() > cap {
        body.truncate(cap);
        proof {
            assert(body@ =~= old(body)@.take(cap as int));
        }
        true
    } else {
        false
    }
}

/// The state when the response of request `id` is complete: when `id` is
/// still the current stream, the stream ends (no current request, not live)
/// and `true` says the response is to be shown; otherwise nothing changes
/// and `false` says it only goes to the history.
pub fn finish(s: &mut StreamState, id: &str) -> (current: bool)
    requires
        old(s).wf(),
    ensures
        final(s).wf(),
        current == (old(s).req matches Some(r) && r@ == id@),
        current ==> final(s).req is None && !final(s).live,
        !current ==> final(s).req == old(s).req && final(s).live == old(s).live,
        final(s).events == old(s).events,
        final(s).bytes == old(s).bytes,
        final(s).body@ == old(s).body@,
        final(s).lines == old(s).lines,
        final(s).marks@ == old(s).marks@,
        final(s).notice == old(s).notice,
{
    let current = match &s.req {
        Some(r) => text_eq(r.as_str(), id),
        None => false,
    };
    if current {
        s.req = None;
        s.live = false;
    }
    current
}

/// Whatever the stream did, its marks are in line order, so the time column
/// can be looked up in them (see [`crate::panes::sse_time_for`]).
pub proof fn law_stream_marks_in_line_order(s: StreamState)
    requires
        s.wf(),
    ensures
        marks_sorted(s.marks@),
{
}

proof fn lemma_event_breaks_le(b: Seq<u8>, i: int)
    requires
        0 <= i,
    ensures
        event_breaks_from(b, i) <= if i <= b.len() {
            b.len() - i
        } else {
            0
        },
    decreases b.len() - i,
{
    if i < b.len() {
        lemma_event_breaks_le(b, i + 1);
        if i + 2 <= b.len() {
            lemma_event_breaks_le(b, i + 2);
        }
        if i + 3 <= b.len() {
            lemma_event_breaks_le(b, i + 3);
        }
    }
}

proof fn lemma_newline_count_le(s: Seq<u8>)
    ensures
        newline_count(s) <= s.len(),
    decreases s.len(),
{
    if s.len() > 0 {
        lemma_newline_count_le(s.drop_last());
    }
}

} // verus!
