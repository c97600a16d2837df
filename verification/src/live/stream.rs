//! A buffer of pending events and the encoder of single frames.
use vstd::prelude::*;
use vstd::string::StrSliceExecFns;
use vstd::utf8::encode_utf8;
use crate::live::event::{LiveEvent, sse_text};
use crate::text::{decimal, push_str, string_with_capacity, u64_to_string};

verus! {

/// The frames of a list of events, in order.
pub open spec fn frames_text(events: Seq<LiveEvent>) -> Seq<u8>
    decreases events.len(),
{
    if events.len() == 0 {
        seq![]
    } else {
        frames_text(events.drop_last()) + encode_utf8(sse_text(events.last()))
    }
}

pub struct SseStream {
    events: Vec<LiveEvent>,
}

impl SseStream {
    /// The events waiting to be sent, oldest first.
    pub closed spec fn pending(&self) -> Seq<LiveEvent> {
        self.events@
    }

    pub fn new() -> (s: Self)
        ensures
            s.pending().len() == 0,
    {
        SseStream { events: Vec::new() }
    }

    pub fn push(&mut self, event: LiveEvent)
        ensures
            final(self).pending() == old(self).pending().push(event),
    {
        self.events.push(event);
    }

    /// The frames of all pending events, oldest first; the stream is left empty.
    pub fn drain_bytes(&mut self) -> (b: Vec<u8>)
        ensures
            b@ == frames_text(old(self).pending()),
            final(self).pending().len() == 0,
    {
        let mut out: Vec<u8> = Vec::new();
        let ghost evs = self.events@;
        let mut i: usize = 0;
        while i < self.events.len()
            invariant
                i <= self.events@.len(),
                evs == self.events@,
                out@ == frames_text(evs.take(i as int)),
            decreases self.events@.len() - i,
        {
            let mut bytes = self.events[i].to_sse_bytes();
            out.append(&mut bytes);
            proof {
                assert(evs.take(i + 1).drop_last() == evs.take(i as int));
                assert(evs.take(i + 1).last() == evs[i as int]);
            }
            i = i + 1;
        }
        proof {
            assert(evs.take(evs.len() as int) == evs);
        }
        self.events = Vec::new();
        out
    }
}

impl Default for SseStream {
    fn default() -> (s: Self)
        ensures
            s.pending().len() == 0,
    {
        SseStream::new()
    }
}

pub struct SseEncoder;

impl SseEncoder {
    pub fn encode(event: &LiveEvent) -> (b: Vec<u8>)
        ensures
            b@ == encode_utf8(sse_text(*event)),
    {
        event.to_sse_bytes()
    }

    /// A comment frame: `: ` and the text, then an empty line.
    pub fn comment(text: &str) -> (b: Vec<u8>)
        ensures
            b@ == encode_utf8(": "@ + text@ + "\n\n"@),
    {
        let mut s = string_with_capacity(0);
        push_str(&mut s, ": ");
        push_str(&mut s, text);
        push_str(&mut s, "\n\n");
        s.as_str().as_bytes_vec()
    }

    /// A frame that only sets the reconnection delay.
    pub fn retry(ms: u64) -> (b: Vec<u8>)
        ensures
            b@ == encode_utf8("retry: "@ + decimal(ms as nat) + "\n\n"@),
    {
        let mut s = string_with_capacity(0);
        push_str(&mut s, "retry: ");
        let n = u64_to_string(ms);
        push_str(&mut s, n.as_str());
        push_str(&mut s, "\n\n");
        s.as_str().as_bytes_vec()
    }
}

} // verus!
