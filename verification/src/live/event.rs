//! Server-sent events and their wire format.
use vstd::prelude::*;
use vstd::string::StrSliceExecFns;
use vstd::utf8::encode_utf8;
use crate::text::{decimal, prefixed_lines, push_prefixed_lines, push_str, string_with_capacity, to_owned_string,
    u64_to_string};

verus! {

#[derive(Debug, Clone, PartialEq, Eq)]
pub enum EventKind {
    Message,
    Fragment,
    Heartbeat,
    StateSync,
    Custom(String),
}

/// The name of an event kind on the wire.
pub open spec fn kind_text(k: EventKind) -> Seq<char> {
    match k {
        EventKind::Message => "message"@,
        EventKind::Fragment => "fragment"@,
        EventKind::Heartbeat => "heartbeat"@,
        EventKind::StateSync => "state_sync"@,
        EventKind::Custom(s) => s@,
    }
}

impl EventKind {
    pub fn as_str(&self) -> (s: &str)
        ensures
            s@ == kind_text(*self),
    {
        match self {
            EventKind::Message => "message",
            EventKind::Fragment => "fragment",
            EventKind::Heartbeat => "heartbeat",
            EventKind::StateSync => "state_sync",
            EventKind::Custom(s) => s.as_str(),
        }
    }
}

#[derive(Debug, Clone)]
pub struct LiveEvent {
    pub id: Option<String>,
    pub kind: EventKind,
    pub data: String,
    pub retry_ms: Option<u64>,
}

/// The `id:` line, when the event has an id.
pub open spec fn id_line(id: Option<String>) -> Seq<char> {
    match id {
        Some(i) => "id: "@ + i@ + "\n"@,
        None => seq![],
    }
}

/// The `event:` line, for every kind but a plain message.
pub open spec fn event_line(k: EventKind) -> Seq<char> {
    if k is Message {
        seq![]
    } else {
        "event: "@ + kind_text(k) + "\n"@
    }
}

/// The `retry:` line, when a retry delay is set.
pub open spec fn retry_line(retry_ms: Option<u64>) -> Seq<char> {
    match retry_ms {
        Some(ms) => "retry: "@ + decimal(ms as nat) + "\n"@,
        None => seq![],
    }
}

/// The text of an event on the wire: its id, event and retry lines, a `data:`
/// line per line of data, and the empty line that ends the frame.
pub open spec fn sse_text(e: LiveEvent) -> Seq<char> {
    id_line(e.id) + event_line(e.kind) + retry_line(e.retry_ms) + prefixed_lines("data: "@, e.data@) + "\n"@
}

impl LiveEvent {
    pub fn message(data: &str) -> (e: Self)
        ensures
            e.id is None,
            e.kind == EventKind::Message,
            e.data@ == data@,
            e.retry_ms is None,
    {
        LiveEvent { id: None, kind: EventKind::Message, data: to_owned_string(data), retry_ms: None }
    }

    pub fn heartbeat() -> (e: Self)
        ensures
            e.id is None,
            e.kind == EventKind::Heartbeat,
            e.data@ == "ping"@,
            e.retry_ms is None,
    {
        LiveEvent { id: None, kind: EventKind::Heartbeat, data: to_owned_string("ping"), retry_ms: None }
    }

    pub fn state_sync(json: &str) -> (e: Self)
        ensures
            e.id is None,
            e.kind == EventKind::StateSync,
            e.data@ == json@,
            e.retry_ms is None,
    {
        LiveEvent { id: None, kind: EventKind::StateSync, data: to_owned_string(json), retry_ms: None }
    }

    pub fn with_id(self, id: &str) -> (e: Self)
        ensures
            e == (LiveEvent { id: e.id, ..self }),
            e.id is Some && e.id->0@ == id@,
    {
        LiveEvent { id: Some(to_owned_string(id)), ..self }
    }

    pub fn with_retry(self, ms: u64) -> (e: Self)
        ensures
            e == (LiveEvent { retry_ms: Some(ms), ..self }),
    {
        LiveEvent { retry_ms: Some(ms), ..self }
    }

    /// The event as text, in the server-sent events format.
    pub fn to_sse_text(&self) -> (s: String)
        ensures
            s@ == sse_text(*self),
    {
        let mut buf = string_with_capacity(0);
        let ghost s0 = buf@;
        if let Some(id) = &self.id {
            push_str(&mut buf, "id: ");
            push_str(&mut buf, id.as_str());
            push_str(&mut buf, "\n");
        }
        assert(buf@ =~= id_line(self.id));
        let ghost s1 = buf@;
        match &self.kind {
            EventKind::Message => {},
            _ => {
                push_str(&mut buf, "event: ");
                push_str(&mut buf, self.kind.as_str());
                push_str(&mut buf, "\n");
            },
        }
        assert(buf@ =~= s1 + event_line(self.kind));
        let ghost s2 = buf@;
        if let Some(ms) = self.retry_ms {
            push_str(&mut buf, "retry: ");
            let n = u64_to_string(ms);
            push_str(&mut buf, n.as_str());
            push_str(&mut buf, "\n");
        }
        assert(buf@ =~= s2 + retry_line(self.retry_ms));
        push_prefixed_lines(&mut buf, "data: ", self.data.as_str());
        push_str(&mut buf, "\n");
        buf
    }

    /// The event's frame as UTF-8 bytes, in the server-sent events format.
    pub fn to_sse_bytes(&self) -> (b: Vec<u8>)
        ensures
            b@ == encode_utf8(sse_text(*self)),
    {
        let s = self.to_sse_text();
        s.as_str().as_bytes_vec()
    }
}

proof fn lemma_prefixed_lines_ends(prefix: Seq<char>, s: Seq<char>)
    ensures
        s.len() > 0 ==> prefixed_lines(prefix, s).len() > 0 && prefixed_lines(prefix, s).last() == '\n',
    decreases s.len(),
{
    reveal_strlit("\n");
    if s.len() > 0 {
        let i = crate::actions::form::char_pos(s, '\n');
        crate::actions::form::lemma_char_pos(s, '\n');
        if i >= 0 {
            let rest = s.skip(i + 1);
            lemma_prefixed_lines_ends(prefix, rest);
            let head = prefix + crate::text::strip_cr(s.take(i)) + "\n"@;
            assert(prefixed_lines(prefix, s) == head + prefixed_lines(prefix, rest));
            if rest.len() == 0 {
                assert(prefixed_lines(prefix, rest) =~= Seq::<char>::empty());
                assert(head + prefixed_lines(prefix, rest) =~= head);
            }
        }
    }
}

/// Every frame ends with a newline, and a frame with any field ends with an
/// empty line, so that consecutive frames never run together.
pub proof fn law_sse_frame_ends_blank(e: LiveEvent)
    ensures
        sse_text(e).last() == '\n',
        (e.id is Some || !(e.kind is Message) || e.retry_ms is Some || e.data@.len() > 0) ==> {
            let t = sse_text(e);
            t.len() >= 2 && t[t.len() - 2] == '\n'
        },
{
    reveal_strlit("\n");
    lemma_prefixed_lines_ends("data: "@, e.data@);
    let body = id_line(e.id) + event_line(e.kind) + retry_line(e.retry_ms) + prefixed_lines("data: "@, e.data@);
    assert(sse_text(e) == body + "\n"@);
    if e.data@.len() > 0 {
        assert(body.last() == '\n');
    } else {
        assert(prefixed_lines("data: "@, e.data@) =~= Seq::<char>::empty());
        if e.retry_ms is Some {
            assert(body =~= id_line(e.id) + event_line(e.kind) + retry_line(e.retry_ms));
            assert(body.last() == '\n');
        } else if !(e.kind is Message) {
            assert(body =~= id_line(e.id) + event_line(e.kind));
            assert(body.last() == '\n');
        } else if e.id is Some {
            assert(body =~= id_line(e.id));
            assert(body.last() == '\n');
        }
    }
}

} // verus!
