//! Fragment updates pushed to live pages: which element, what to do, what HTML.
use vstd::prelude::*;
use crate::live::event::{EventKind, LiveEvent};
use crate::text::{push_char, push_str, string_with_capacity, to_owned_string, chars_of};

verus! {

#[derive(Debug, Clone)]
pub enum FragmentKind {
    Replace,
    Append,
    Prepend,
    Remove,
}

/// The name of a fragment operation on the wire.
pub open spec fn fragment_op(k: FragmentKind) -> Seq<char> {
    match k {
        FragmentKind::Replace => "replace"@,
        FragmentKind::Append => "append"@,
        FragmentKind::Prepend => "prepend"@,
        FragmentKind::Remove => "remove"@,
    }
}

impl FragmentKind {
    pub fn as_str(&self) -> (s: &str)
        ensures
            s@ == fragment_op(*self),
    {
        match self {
            FragmentKind::Replace => "replace",
            FragmentKind::Append => "append",
            FragmentKind::Prepend => "prepend",
            FragmentKind::Remove => "remove",
        }
    }
}

#[derive(Debug, Clone)]
pub struct LiveFragment {
    pub target_id: String,
    pub kind: FragmentKind,
    pub html: String,
}

/// How one character is written inside a JSON string.
pub open spec fn json_char(c: char) -> Seq<char> {
    if c == '"' {
        seq!['\\', '"']
    } else if c == '\\' {
        seq!['\\', '\\']
    } else if c == '\n' {
        seq!['\\', 'n']
    } else if c == '\r' {
        seq!['\\', 'r']
    } else if c == '\t' {
        seq!['\\', 't']
    } else {
        seq![c]
    }
}

/// The body of a JSON string holding `s`.
pub open spec fn json_escape(s: Seq<char>) -> Seq<char>
    decreases s.len(),
{
    if s.len() == 0 {
        seq![]
    } else {
        json_escape(s.drop_last()) + json_char(s.last())
    }
}

/// `s` as a quoted JSON string.
pub open spec fn json_string(s: Seq<char>) -> Seq<char> {
    seq!['"'] + json_escape(s) + seq!['"']
}

/// The JSON object a fragment is sent as. The target id is written as it is.
pub open spec fn fragment_json(f: LiveFragment) -> Seq<char> {
    "{\"target\":\""@ + f.target_id@ + "\",\"op\":\""@ + fragment_op(f.kind) + "\",\"html\":"@
        + json_string(f.html@) + "}"@
}

/// Writes `s` as a quoted JSON string.
fn json_str(s: &str) -> (r: String)
    ensures
        r@ == json_string(s@),
{
    let chars = chars_of(s);
    let mut out = string_with_capacity(0);
    push_char(&mut out, '"');
    let ghost cs = chars@;
    let mut i: usize = 0;
    while i < chars.len()
        invariant
            i <= chars@.len(),
            cs == chars@,
            cs == s@,
            out@ == seq!['"'] + json_escape(cs.take(i as int)),
        decreases chars@.len() - i,
    {
        let c = chars[i];
        let ghost before = out@;
        if c == '"' {
            push_char(&mut out, '\\');
            push_char(&mut out, '"');
        } else if c == '\\' {
            push_char(&mut out, '\\');
            push_char(&mut out, '\\');
        } else if c == '\n' {
            push_char(&mut out, '\\');
            push_char(&mut out, 'n');
        } else if c == '\r' {
            push_char(&mut out, '\\');
            push_char(&mut out, 'r');
        } else if c == '\t' {
            push_char(&mut out, '\\');
            push_char(&mut out, 't');
        } else {
            push_char(&mut out, c);
        }
        proof {
            assert(out@ =~= before + json_char(c));
            assert(cs.take(i + 1).drop_last() == cs.take(i as int));
            assert(cs.take(i + 1).last() == c);
        }
        i = i + 1;
    }
    proof {
        assert(cs.take(cs.len() as int) == cs);
    }
    push_char(&mut out, '"');
    out
}

impl LiveFragment {
    pub fn replace(target_id: &str, html: &str) -> (f: Self)
        ensures
            f.target_id@ == target_id@,
            f.kind is Replace,
            f.html@ == html@,
    {
        LiveFragment { target_id: to_owned_string(target_id), kind: FragmentKind::Replace, html: to_owned_string(html) }
    }

    pub fn append(target_id: &str, html: &str) -> (f: Self)
        ensures
            f.target_id@ == target_id@,
            f.kind is Append,
            f.html@ == html@,
    {
        LiveFragment { target_id: to_owned_string(target_id), kind: FragmentKind::Append, html: to_owned_string(html) }
    }

    pub fn prepend(target_id: &str, html: &str) -> (f: Self)
        ensures
            f.target_id@ == target_id@,
            f.kind is Prepend,
            f.html@ == html@,
    {
        LiveFragment { target_id: to_owned_string(target_id), kind: FragmentKind::Prepend, html: to_owned_string(html) }
    }

    pub fn remove(target_id: &str) -> (f: Self)
        ensures
            f.target_id@ == target_id@,
            f.kind is Remove,
            f.html@.len() == 0,
    {
        LiveFragment { target_id: to_owned_string(target_id), kind: FragmentKind::Remove, html: String::new() }
    }

    /// The fragment as a JSON object: target, operation and HTML.
    pub fn to_sse_data(&self) -> (s: String)
        ensures
            s@ == fragment_json(*self),
    {
        let mut s = string_with_capacity(0);
        push_str(&mut s, "{\"target\":\"");
        push_str(&mut s, self.target_id.as_str());
        push_str(&mut s, "\",\"op\":\"");
        push_str(&mut s, self.kind.as_str());
        push_str(&mut s, "\",\"html\":");
        let h = json_str(self.html.as_str());
        push_str(&mut s, h.as_str());
        push_str(&mut s, "}");
        assert(s@ =~= fragment_json(*self));
        s
    }

    /// The live event that carries this fragment: kind `fragment`, the
    /// fragment's JSON as data, no id and no retry delay.
    pub fn to_event(&self) -> (e: LiveEvent)
        ensures
            is_fragment_event(e, *self),
    {
        LiveEvent { id: None, kind: EventKind::Fragment, data: self.to_sse_data(), retry_ms: None }
    }
}

/// Whether `e` is the live event that carries fragment `f`.
pub open spec fn is_fragment_event(e: LiveEvent, f: LiveFragment) -> bool {
    &&& e.id is None
    &&& e.kind == EventKind::Fragment
    &&& e.data@ == fragment_json(f)
    &&& e.retry_ms is None
}

/// Escaped HTML holds no raw line breaks or tabs, so a fragment's JSON fits on
/// one `data:` line.
pub proof fn law_json_escape_single_line(s: Seq<char>)
    ensures
        forall|i: int| 0 <= i < json_escape(s).len() ==> {
            let c = #[trigger] json_escape(s)[i];
            c != '\n' && c != '\r' && c != '\t'
        },
    decreases s.len(),
{
    if s.len() > 0 {
        law_json_escape_single_line(s.drop_last());
        let a = json_escape(s.drop_last());
        let b = json_char(s.last());
        assert forall|i: int| 0 <= i < json_escape(s).len() implies {
            let c = #[trigger] json_escape(s)[i];
            c != '\n' && c != '\r' && c != '\t'
        } by {
            if i < a.len() {
                assert(json_escape(s)[i] == a[i]);
            } else {
                assert(json_escape(s)[i] == b[i - a.len()]);
            }
        }
    }
}

} // verus!
