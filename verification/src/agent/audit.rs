//! The audit log of what agents did: bounded, oldest entries dropped first.
use vstd::prelude::*;
use crate::agent::task::unix_seconds;
use crate::text::{chars_of, decimal, join, join_strings, push_char, push_str, str_eq, string_with_capacity,
    to_owned_string, u64_to_string};

verus! {

#[derive(Debug, Clone)]
pub struct AgentAuditEntry {
    pub ts: u64,
    pub task_id: String,
    pub agent_id: String,
    pub action: String,
    pub outcome: String,
    pub detail: Option<String>,
}

/// `s` with every double quote preceded by a backslash.
pub open spec fn escape_quotes(s: Seq<char>) -> Seq<char>
    decreases s.len(),
{
    if s.len() == 0 {
        seq![]
    } else {
        escape_quotes(s.drop_last()) + if s.last() == '"' { seq!['\\', '"'] } else { seq![s.last()] }
    }
}

/// The `detail` member of an entry's JSON, when it has a detail.
pub open spec fn detail_json(d: Option<String>) -> Seq<char> {
    match d {
        Some(d) => ",\"detail\":\""@ + escape_quotes(d@) + "\""@,
        None => seq![],
    }
}

/// An entry as one JSON object. Only the detail is escaped.
pub open spec fn entry_json(e: AgentAuditEntry) -> Seq<char> {
    "{\"ts\":"@ + decimal(e.ts as nat) + ",\"task_id\":\""@ + e.task_id@ + "\",\"agent_id\":\""@ + e.agent_id@
        + "\",\"action\":\""@ + e.action@ + "\",\"outcome\":\""@ + e.outcome@ + "\""@ + detail_json(e.detail) + "}"@
}

fn push_escaped_quotes(out: &mut String, s: &str)
    ensures
        final(out)@ == old(out)@ + escape_quotes(s@),
{
    let chars = chars_of(s);
    let ghost s0 = out@;
    let ghost cs = chars@;
    let mut i: usize = 0;
    while i < chars.len()
        invariant
            i <= chars@.len(),
            cs == chars@,
            cs == s@,
            out@ == s0 + escape_quotes(cs.take(i as int)),
        decreases chars@.len() - i,
    {
        let c = chars[i];
        let ghost before = out@;
        if c == '"' {
            push_char(out, '\\');
            push_char(out, '"');
        } else {
            push_char(out, c);
        }
        proof {
            assert(cs.take(i + 1).drop_last() == cs.take(i as int));
            assert(cs.take(i + 1).last() == c);
            assert(out@ =~= s0 + escape_quotes(cs.take(i + 1)));
        }
        i = i + 1;
    }
    proof {
        assert(cs.take(cs.len() as int) == cs);
    }
}

impl AgentAuditEntry {
    /// An entry stamped with time `ts`.
    pub fn new_at(task_id: &str, agent_id: &str, action: &str, outcome: &str, ts: u64) -> (e: Self)
        ensures
            e.ts == ts,
            e.task_id@ == task_id@,
            e.agent_id@ == agent_id@,
            e.action@ == action@,
            e.outcome@ == outcome@,
            e.detail is None,
    {
        AgentAuditEntry {
            ts,
            task_id: to_owned_string(task_id),
            agent_id: to_owned_string(agent_id),
            action: to_owned_string(action),
            outcome: to_owned_string(outcome),
            detail: None,
        }
    }

    /// An entry stamped with the current time.
    pub fn new(task_id: &str, agent_id: &str, action: &str, outcome: &str) -> (e: Self)
        ensures
            e.task_id@ == task_id@,
            e.agent_id@ == agent_id@,
            e.action@ == action@,
            e.outcome@ == outcome@,
            e.detail is None,
    {
        AgentAuditEntry::new_at(task_id, agent_id, action, outcome, unix_seconds())
    }

    pub fn with_detail(self, detail: &str) -> (e: Self)
        ensures
            e == (AgentAuditEntry { detail: e.detail, ..self }),
            e.detail is Some && e.detail->0@ == detail@,
    {
        AgentAuditEntry { detail: Some(to_owned_string(detail)), ..self }
    }

    pub fn to_json(&self) -> (s: String)
        ensures
            s@ == entry_json(*self),
    {
        let mut s = string_with_capacity(0);
        push_str(&mut s, "{\"ts\":");
        let n = u64_to_string(self.ts);
        push_str(&mut s, n.as_str());
        push_str(&mut s, ",\"task_id\":\"");
        push_str(&mut s, self.task_id.as_str());
        push_str(&mut s, "\",\"agent_id\":\"");
        push_str(&mut s, self.agent_id.as_str());
        push_str(&mut s, "\",\"action\":\"");
        push_str(&mut s, self.action.as_str());
        push_str(&mut s, "\",\"outcome\":\"");
        push_str(&mut s, self.outcome.as_str());
        push_str(&mut s, "\"");
        let ghost s1 = s@;
        if let Some(d) = &self.detail {
            push_str(&mut s, ",\"detail\":\"");
            push_escaped_quotes(&mut s, d.as_str());
            push_str(&mut s, "\"");
        }
        assert(s@ =~= s1 + detail_json(self.detail));
        push_str(&mut s, "}");
        assert(s@ =~= entry_json(*self));
        s
    }
}

/// The entries kept after logging `e` into `es` with room for `max`.
pub open spec fn logged(es: Seq<AgentAuditEntry>, e: AgentAuditEntry, max: usize) -> Seq<AgentAuditEntry> {
    if es.len() >= max { es.drop_first().push(e) } else { es.push(e) }
}

/// The entries of task `task_id`, in order.
pub open spec fn task_entries(es: Seq<AgentAuditEntry>, task_id: Seq<char>) -> Seq<AgentAuditEntry>
    decreases es.len(),
{
    if es.len() == 0 {
        seq![]
    } else {
        let r = task_entries(es.drop_last(), task_id);
        if es.last().task_id@ == task_id { r.push(es.last()) } else { r }
    }
}

pub struct AgentAuditLog {
    entries: Vec<AgentAuditEntry>,
    max_entries: usize,
}

impl AgentAuditLog {
    /// The entries, oldest first.
    pub closed spec fn entries_spec(&self) -> Seq<AgentAuditEntry> {
        self.entries@
    }

    /// How many entries the log keeps.
    pub closed spec fn max_spec(&self) -> usize {
        self.max_entries
    }

    pub fn new(max_entries: usize) -> (l: Self)
        ensures
            l.entries_spec().len() == 0,
            l.max_spec() == max_entries,
    {
        AgentAuditLog { entries: Vec::new(), max_entries }
    }

    /// Appends an entry, first dropping the oldest when the log is full. A
    /// full log must hold an entry to drop.
    pub fn log(&mut self, entry: AgentAuditEntry)
        requires
            old(self).entries_spec().len() >= old(self).max_spec() ==> old(self).entries_spec().len() > 0,
        ensures
            final(self).entries_spec() == logged(old(self).entries_spec(), entry, old(self).max_spec()),
            final(self).max_spec() == old(self).max_spec(),
    {
        if self.entries.len() >= self.max_entries {
            self.entries.remove(0);
        }
        self.entries.push(entry);
        proof {
            assert(self.entries@ =~= logged(old(self).entries@, entry, old(self).max_entries));
        }
    }

    pub fn entries(&self) -> (s: &[AgentAuditEntry])
        ensures
            s@ == self.entries_spec(),
    {
        self.entries.as_slice()
    }

    pub fn entries_for_task(&self, task_id: &str) -> (v: Vec<&AgentAuditEntry>)
        ensures
            v@.map_values(|e: &AgentAuditEntry| *e) == task_entries(self.entries_spec(), task_id@),
    {
        let es = &self.entries;
        let mut v: Vec<&AgentAuditEntry> = Vec::new();
        let mut i: usize = 0;
        while i < es.len()
            invariant
                i <= es@.len(),
                es == &self.entries,
                v@.map_values(|e: &AgentAuditEntry| *e) == task_entries(es@.take(i as int), task_id@),
            decreases es@.len() - i,
        {
            proof {
                assert(es@.take(i + 1).drop_last() == es@.take(i as int));
                assert(es@.take(i + 1).last() == es@[i as int]);
            }
            if str_eq(es[i].task_id.as_str(), task_id) {
                let ghost before = v@;
                v.push(&es[i]);
                proof {
                    assert(v@.map_values(|e: &AgentAuditEntry| *e)
                        =~= before.map_values(|e: &AgentAuditEntry| *e).push(es@[i as int]));
                }
            }
            i = i + 1;
        }
        proof {
            assert(es@.take(es@.len() as int) == es@);
        }
        v
    }

    /// The entries as JSON lines.
    pub fn to_jsonl(&self) -> (s: String)
        ensures
            s@ == join(self.entries_spec().map_values(|e: AgentAuditEntry| entry_json(e)), "\n"@),
    {
        let mut lines: Vec<String> = Vec::new();
        let mut i: usize = 0;
        while i < self.entries.len()
            invariant
                i <= self.entries@.len(),
                lines@.map_values(|l: String| l@) == self.entries@.take(i as int).map_values(|e: AgentAuditEntry| entry_json(e)),
            decreases self.entries@.len() - i,
        {
            let l = self.entries[i].to_json();
            let ghost before = lines@;
            lines.push(l);
            proof {
                assert(lines@.map_values(|l: String| l@) =~= before.map_values(|l: String| l@).push(entry_json(self.entries@[i as int])));
                assert(self.entries@.take(i + 1).map_values(|e: AgentAuditEntry| entry_json(e))
                    =~= self.entries@.take(i as int).map_values(|e: AgentAuditEntry| entry_json(e)).push(entry_json(self.entries@[i as int])));
            }
            i = i + 1;
        }
        proof {
            assert(self.entries@.take(self.entries@.len() as int) == self.entries@);
        }
        join_strings(&lines, "\n")
    }

    pub fn len(&self) -> (n: usize)
        ensures
            n == self.entries_spec().len(),
    {
        self.entries.len()
    }

    pub fn is_empty(&self) -> (b: bool)
        ensures
            b == (self.entries_spec().len() == 0),
    {
        self.entries.len() == 0
    }
}

/// A log never grows past its bound: logging into a log within its bound (of
/// at least one entry) keeps it within the bound, and the new entry is last.
pub proof fn law_audit_log_bounded(es: Seq<AgentAuditEntry>, e: AgentAuditEntry, max: usize)
    requires
        es.len() <= max,
        max > 0,
    ensures
        logged(es, e, max).len() <= max,
        logged(es, e, max).last() == e,
        logged(es, e, max).len() == if es.len() == max { es.len() } else { es.len() + 1 },
{
}

} // verus!
