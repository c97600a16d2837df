//! Tasks handed to agents and the results they come back with.
use vstd::prelude::*;
use crate::actions::action::now_timestamp;
use crate::text::{decimal, push_str, string_with_capacity, to_owned_string, u64_to_string};

verus! {

#[derive(Debug, Clone, Copy, PartialEq, Eq, Structural)]
pub enum TaskStatus {
    Pending,
    Running,
    Completed,
    Failed,
    Cancelled,
}

/// The name of a task status.
pub open spec fn status_name(s: TaskStatus) -> Seq<char> {
    match s {
        TaskStatus::Pending => "pending"@,
        TaskStatus::Running => "running"@,
        TaskStatus::Completed => "completed"@,
        TaskStatus::Failed => "failed"@,
        TaskStatus::Cancelled => "cancelled"@,
    }
}

impl TaskStatus {
    pub fn as_str(&self) -> (s: &'static str)
        ensures
            s@ == status_name(*self),
    {
        match self {
            TaskStatus::Pending => "pending",
            TaskStatus::Running => "running",
            TaskStatus::Completed => "completed",
            TaskStatus::Failed => "failed",
            TaskStatus::Cancelled => "cancelled",
        }
    }
}

/// The current time in whole seconds since the epoch.
pub fn unix_seconds() -> (t: u64)
    ensures
        t < 10_000_000_000_000,
{
    now_timestamp() as u64
}

#[derive(Debug, Clone)]
pub struct AgentTask {
    pub id: String,
    pub agent_id: String,
    pub prompt: String,
    pub context: Vec<(String, String)>,
    pub status: TaskStatus,
    pub created_at: u64,
}

/// The context pairs of a task as text.
pub open spec fn context_view(c: Seq<(String, String)>) -> Seq<(Seq<char>, Seq<char>)> {
    c.map_values(|p: (String, String)| (p.0@, p.1@))
}

impl AgentTask {
    /// A pending task created at time `ts`, with id `task_` and the time.
    pub fn new_at(agent_id: &str, prompt: &str, ts: u64) -> (t: Self)
        ensures
            t.id@ == "task_"@ + decimal(ts as nat),
            t.agent_id@ == agent_id@,
            t.prompt@ == prompt@,
            t.context@.len() == 0,
            t.status == TaskStatus::Pending,
            t.created_at == ts,
    {
        let mut id = string_with_capacity(0);
        push_str(&mut id, "task_");
        let n = u64_to_string(ts);
        push_str(&mut id, n.as_str());
        AgentTask {
            id,
            agent_id: to_owned_string(agent_id),
            prompt: to_owned_string(prompt),
            context: Vec::new(),
            status: TaskStatus::Pending,
            created_at: ts,
        }
    }

    /// A pending task created now.
    pub fn new(agent_id: &str, prompt: &str) -> (t: Self)
        ensures
            t.id@ == "task_"@ + decimal(t.created_at as nat),
            t.agent_id@ == agent_id@,
            t.prompt@ == prompt@,
            t.context@.len() == 0,
            t.status == TaskStatus::Pending,
    {
        AgentTask::new_at(agent_id, prompt, unix_seconds())
    }

    pub fn with_context(self, key: &str, value: &str) -> (t: Self)
        ensures
            t.id == self.id,
            t.agent_id == self.agent_id,
            t.prompt == self.prompt,
            t.status == self.status,
            t.created_at == self.created_at,
            context_view(t.context@) == context_view(self.context@).push((key@, value@)),
    {
        let mut t = self;
        let ghost before = t.context@;
        t.context.push((to_owned_string(key), to_owned_string(value)));
        proof {
            assert(context_view(t.context@) =~= context_view(before).push((key@, value@)));
        }
        t
    }
}

#[derive(Debug, Clone)]
pub struct TaskResult {
    pub task_id: String,
    pub status: TaskStatus,
    pub output: Option<String>,
    pub error: Option<String>,
    pub tokens_used: Option<u32>,
    pub duration_ms: u64,
}

impl TaskResult {
    pub fn success(task_id: &str, output: &str) -> (r: Self)
        ensures
            r.task_id@ == task_id@,
            r.status == TaskStatus::Completed,
            r.output is Some && r.output->0@ == output@,
            r.error is None,
            r.tokens_used is None,
            r.duration_ms == 0,
    {
        TaskResult {
            task_id: to_owned_string(task_id),
            status: TaskStatus::Completed,
            output: Some(to_owned_string(output)),
            error: None,
            tokens_used: None,
            duration_ms: 0,
        }
    }

    pub fn failure(task_id: &str, error: &str) -> (r: Self)
        ensures
            r.task_id@ == task_id@,
            r.status == TaskStatus::Failed,
            r.output is None,
            r.error is Some && r.error->0@ == error@,
            r.tokens_used is None,
            r.duration_ms == 0,
    {
        TaskResult {
            task_id: to_owned_string(task_id),
            status: TaskStatus::Failed,
            output: None,
            error: Some(to_owned_string(error)),
            tokens_used: None,
            duration_ms: 0,
        }
    }

    pub fn is_ok(&self) -> (b: bool)
        ensures
            b == (self.status == TaskStatus::Completed),
    {
        self.status == TaskStatus::Completed
    }
}

} // verus!
