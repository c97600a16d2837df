//! Agent reviews: findings by severity, their verdict and their report.
use vstd::prelude::*;
use crate::agent::task::unix_seconds;
use crate::text::{contains_str, decimal, push_str, seq_contains, string_with_capacity, to_owned_string, u64_to_string};

verus! {

#[derive(Debug, Clone, Copy, PartialEq, Eq, PartialOrd, Ord, Structural)]
pub enum ReviewSeverity {
    Info,
    Warning,
    Error,
    Critical,
}

/// The order of severities, from `Info` up.
pub open spec fn severity_rank(s: ReviewSeverity) -> int {
    match s {
        ReviewSeverity::Info => 0,
        ReviewSeverity::Warning => 1,
        ReviewSeverity::Error => 2,
        ReviewSeverity::Critical => 3,
    }
}

/// The name of a severity.
pub open spec fn severity_name(s: ReviewSeverity) -> Seq<char> {
    match s {
        ReviewSeverity::Info => "info"@,
        ReviewSeverity::Warning => "warning"@,
        ReviewSeverity::Error => "error"@,
        ReviewSeverity::Critical => "critical"@,
    }
}

/// The name of a severity in capitals.
pub open spec fn severity_upper(s: ReviewSeverity) -> Seq<char> {
    match s {
        ReviewSeverity::Info => "INFO"@,
        ReviewSeverity::Warning => "WARNING"@,
        ReviewSeverity::Error => "ERROR"@,
        ReviewSeverity::Critical => "CRITICAL"@,
    }
}

impl ReviewSeverity {
    pub fn as_str(&self) -> (s: &'static str)
        ensures
            s@ == severity_name(*self),
    {
        match self {
            ReviewSeverity::Info => "info",
            ReviewSeverity::Warning => "warning",
            ReviewSeverity::Error => "error",
            ReviewSeverity::Critical => "critical",
        }
    }

    fn upper(&self) -> (s: &'static str)
        ensures
            s@ == severity_upper(*self),
    {
        match self {
            ReviewSeverity::Info => "INFO",
            ReviewSeverity::Warning => "WARNING",
            ReviewSeverity::Error => "ERROR",
            ReviewSeverity::Critical => "CRITICAL",
        }
    }

    fn rank(&self) -> (r: u8)
        ensures
            r == severity_rank(*self),
    {
        match self {
            ReviewSeverity::Info => 0,
            ReviewSeverity::Warning => 1,
            ReviewSeverity::Error => 2,
            ReviewSeverity::Critical => 3,
        }
    }
}

#[derive(Debug, Clone)]
pub struct ReviewFinding {
    pub severity: ReviewSeverity,
    pub category: String,
    pub message: String,
    pub location: Option<String>,
    pub suggestion: Option<String>,
}

impl ReviewFinding {
    fn with_severity(severity: ReviewSeverity, category: &str, message: &str) -> (f: Self)
        ensures
            f.severity == severity,
            f.category@ == category@,
            f.message@ == message@,
            f.location is None,
            f.suggestion is None,
    {
        ReviewFinding {
            severity,
            category: to_owned_string(category),
            message: to_owned_string(message),
            location: None,
            suggestion: None,
        }
    }

    pub fn info(category: &str, message: &str) -> (f: Self)
        ensures
            f.severity == ReviewSeverity::Info,
            f.category@ == category@,
            f.message@ == message@,
            f.location is None,
            f.suggestion is None,
    {
        ReviewFinding::with_severity(ReviewSeverity::Info, category, message)
    }

    pub fn warning(category: &str, message: &str) -> (f: Self)
        ensures
            f.severity == ReviewSeverity::Warning,
            f.category@ == category@,
            f.message@ == message@,
            f.location is None,
            f.suggestion is None,
    {
        ReviewFinding::with_severity(ReviewSeverity::Warning, category, message)
    }

    pub fn error(category: &str, message: &str) -> (f: Self)
        ensures
            f.severity == ReviewSeverity::Error,
            f.category@ == category@,
            f.message@ == message@,
            f.location is None,
            f.suggestion is None,
    {
        ReviewFinding::with_severity(ReviewSeverity::Error, category, message)
    }

    pub fn critical(category: &str, message: &str) -> (f: Self)
        ensures
            f.severity == ReviewSeverity::Critical,
            f.category@ == category@,
            f.message@ == message@,
            f.location is None,
            f.suggestion is None,
    {
        ReviewFinding::with_severity(ReviewSeverity::Critical, category, message)
    }

    pub fn at(self, location: &str) -> (f: Self)
        ensures
            f == (ReviewFinding { location: f.location, ..self }),
            f.location is Some && f.location->0@ == location@,
    {
        ReviewFinding { location: Some(to_owned_string(location)), ..self }
    }

    pub fn suggest(self, suggestion: &str) -> (f: Self)
        ensures
            f == (ReviewFinding { suggestion: f.suggestion, ..self }),
            f.suggestion is Some && f.suggestion->0@ == suggestion@,
    {
        ReviewFinding { suggestion: Some(to_owned_string(suggestion)), ..self }
    }
}

#[derive(Debug, Clone)]
pub struct ReviewTask {
    pub id: String,
    pub subject: String,
    pub context: String,
    pub instructions: Vec<String>,
}

impl ReviewTask {
    /// A review task created at time `ts`, with id `review_` and the time.
    pub fn new_at(subject: &str, ts: u64) -> (t: Self)
        ensures
            t.id@ == "review_"@ + decimal(ts as nat),
            t.subject@ == subject@,
            t.context@.len() == 0,
            t.instructions@.len() == 0,
    {
        let mut id = string_with_capacity(0);
        push_str(&mut id, "review_");
        let n = u64_to_string(ts);
        push_str(&mut id, n.as_str());
        ReviewTask { id, subject: to_owned_string(subject), context: String::new(), instructions: Vec::new() }
    }

    /// A review task created now.
    pub fn new(subject: &str) -> (t: Self)
        ensures
            exists|ts: u64| t.id@ == "review_"@ + #[trigger] decimal(ts as nat),
            t.subject@ == subject@,
            t.context@.len() == 0,
            t.instructions@.len() == 0,
    {
        let ts = unix_seconds();
        let t = ReviewTask::new_at(subject, ts);
        assert(t.id@ == "review_"@ + decimal(ts as nat));
        t
    }

    pub fn with_context(self, ctx: &str) -> (t: Self)
        ensures
            t == (ReviewTask { context: t.context, ..self }),
            t.context@ == ctx@,
    {
        ReviewTask { context: to_owned_string(ctx), ..self }
    }

    pub fn with_instruction(self, inst: &str) -> (t: Self)
        ensures
            t.id == self.id,
            t.subject == self.subject,
            t.context == self.context,
            t.instructions@.map_values(|s: String| s@) == self.instructions@.map_values(|s: String| s@).push(inst@),
    {
        let mut t = self;
        let ghost before = t.instructions@;
        t.instructions.push(to_owned_string(inst));
        proof {
            assert(t.instructions@.map_values(|s: String| s@) =~= before.map_values(|s: String| s@).push(inst@));
        }
        t
    }
}

#[derive(Debug, Clone)]
pub struct ReviewResult {
    pub task_id: String,
    pub findings: Vec<ReviewFinding>,
    pub summary: String,
    pub passed: bool,
}

/// Whether no finding is an error or worse.
pub open spec fn no_blocking(fs: Seq<ReviewFinding>) -> bool {
    forall|i: int| 0 <= i < fs.len() ==> severity_rank(#[trigger] fs[i].severity) < 2
}

/// The number of findings of severity `s`.
pub open spec fn count_severity(fs: Seq<ReviewFinding>, s: ReviewSeverity) -> nat
    decreases fs.len(),
{
    if fs.len() == 0 {
        0
    } else {
        count_severity(fs.drop_last(), s) + if fs.last().severity == s { 1nat } else { 0nat }
    }
}

/// Where a finding is, when it says.
pub open spec fn location_part(o: Option<String>) -> Seq<char> {
    match o {
        Some(l) => " at `"@ + l@ + "`"@,
        None => seq![],
    }
}

/// The suggestion line of a finding, when it has one.
pub open spec fn suggestion_part(o: Option<String>) -> Seq<char> {
    match o {
        Some(s) => "  - Suggestion: "@ + s@ + "\n"@,
        None => seq![],
    }
}

/// The report line of one finding, with its suggestion line if it has one.
pub open spec fn finding_markdown(f: ReviewFinding) -> Seq<char> {
    "- **["@ + severity_upper(f.severity) + "]** "@ + f.category@ + ": "@ + f.message@ + location_part(f.location)
        + "\n"@ + suggestion_part(f.suggestion)
}

/// The report lines of the findings, in order.
pub open spec fn findings_markdown(fs: Seq<ReviewFinding>) -> Seq<char>
    decreases fs.len(),
{
    if fs.len() == 0 {
        seq![]
    } else {
        findings_markdown(fs.drop_last()) + finding_markdown(fs.last())
    }
}

/// The markdown report of a review.
pub open spec fn review_markdown(r: ReviewResult) -> Seq<char> {
    "# Review: "@ + r.task_id@ + "\n\n"@ + "**Summary**: "@ + r.summary@ + "\n\n"@ + "**Status**: "@
        + (if r.passed { "PASSED"@ } else { "FAILED"@ }) + "\n\n"@ + if r.findings@.len() > 0 {
        "## Findings\n\n"@ + findings_markdown(r.findings@)
    } else {
        seq![]
    }
}

impl ReviewResult {
    pub fn new(task_id: &str, summary: &str) -> (r: Self)
        ensures
            r.task_id@ == task_id@,
            r.summary@ == summary@,
            r.findings@.len() == 0,
            r.passed,
    {
        ReviewResult { task_id: to_owned_string(task_id), findings: Vec::new(), summary: to_owned_string(summary), passed: true }
    }

    /// Records a finding; an error or a critical finding fails the review.
    pub fn add_finding(self, finding: ReviewFinding) -> (r: Self)
        ensures
            r.task_id == self.task_id,
            r.summary == self.summary,
            r.findings@ == self.findings@.push(finding),
            r.passed == (self.passed && severity_rank(finding.severity) < 2),
            self.passed == no_blocking(self.findings@) ==> r.passed == no_blocking(r.findings@),
    {
        let mut r = self;
        if finding.severity.rank() >= 2 {
            r.passed = false;
        }
        let ghost sev = finding.severity;
        r.findings.push(finding);
        proof {
            let fs = r.findings@;
            if self.passed == no_blocking(self.findings@) {
                if no_blocking(fs) {
                    assert(fs[fs.len() - 1] == finding);
                    assert forall|i: int| 0 <= i < self.findings@.len() implies severity_rank(#[trigger] self.findings@[i].severity) < 2 by {
                        assert(fs[i] == self.findings@[i]);
                    }
                }
                if r.passed {
                    assert forall|i: int| 0 <= i < fs.len() implies severity_rank(#[trigger] fs[i].severity) < 2 by {
                        if i < self.findings@.len() {
                            assert(fs[i] == self.findings@[i]);
                        }
                    }
                }
            }
        }
        r
    }

    fn count(&self, s: ReviewSeverity) -> (n: usize)
        ensures
            n == count_severity(self.findings@, s),
    {
        let mut n: usize = 0;
        let mut i: usize = 0;
        while i < self.findings.len()
            invariant
                i <= self.findings@.len(),
                n == count_severity(self.findings@.take(i as int), s),
                n <= i,
            decreases self.findings@.len() - i,
        {
            proof {
                assert(self.findings@.take(i + 1).drop_last() == self.findings@.take(i as int));
                assert(self.findings@.take(i + 1).last() == self.findings@[i as int]);
            }
            if self.findings[i].severity == s {
                n = n + 1;
            }
            i = i + 1;
        }
        proof {
            assert(self.findings@.take(self.findings@.len() as int) == self.findings@);
        }
        n
    }

    pub fn critical_count(&self) -> (n: usize)
        ensures
            n == count_severity(self.findings@, ReviewSeverity::Critical),
    {
        self.count(ReviewSeverity::Critical)
    }

    pub fn error_count(&self) -> (n: usize)
        ensures
            n == count_severity(self.findings@, ReviewSeverity::Error),
    {
        self.count(ReviewSeverity::Error)
    }

    pub fn warning_count(&self) -> (n: usize)
        ensures
            n == count_severity(self.findings@, ReviewSeverity::Warning),
    {
        self.count(ReviewSeverity::Warning)
    }

    pub fn to_markdown(&self) -> (s: String)
        ensures
            s@ == review_markdown(*self),
    {
        let mut out = string_with_capacity(0);
        push_str(&mut out, "# Review: ");
        push_str(&mut out, self.task_id.as_str());
        push_str(&mut out, "\n\n");
        push_str(&mut out, "**Summary**: ");
        push_str(&mut out, self.summary.as_str());
        push_str(&mut out, "\n\n");
        push_str(&mut out, "**Status**: ");
        push_str(&mut out, if self.passed { "PASSED" } else { "FAILED" });
        push_str(&mut out, "\n\n");
        let ghost head = out@;
        if self.findings.len() > 0 {
            push_str(&mut out, "## Findings\n\n");
            let ghost s1 = out@;
            let mut i: usize = 0;
            while i < self.findings.len()
                invariant
                    i <= self.findings@.len(),
                    out@ == s1 + findings_markdown(self.findings@.take(i as int)),
                decreases self.findings@.len() - i,
            {
                let f = &self.findings[i];
                let ghost s2 = out@;
                write_finding(&mut out, f);
                proof {
                    assert(self.findings@.take(i + 1).drop_last() == self.findings@.take(i as int));
                    assert(self.findings@.take(i + 1).last() == self.findings@[i as int]);
                }
                i = i + 1;
            }
            proof {
                assert(self.findings@.take(self.findings@.len() as int) == self.findings@);
            }
        }
        assert(out@ =~= review_markdown(*self));
        out
    }
}

fn write_finding(out: &mut String, f: &ReviewFinding)
    ensures
        final(out)@ == old(out)@ + finding_markdown(*f),
{
    let ghost s0 = out@;
    push_str(out, "- **[");
    push_str(out, f.severity.upper());
    push_str(out, "]** ");
    push_str(out, f.category.as_str());
    push_str(out, ": ");
    push_str(out, f.message.as_str());
    let ghost s1 = out@;
    if let Some(l) = &f.location {
        push_str(out, " at `");
        push_str(out, l.as_str());
        push_str(out, "`");
    }
    assert(out@ =~= s1 + location_part(f.location));
    push_str(out, "\n");
    let ghost s2 = out@;
    if let Some(sg) = &f.suggestion {
        push_str(out, "  - Suggestion: ");
        push_str(out, sg.as_str());
        push_str(out, "\n");
    }
    assert(out@ =~= s2 + suggestion_part(f.suggestion));
    assert(out@ =~= s0 + finding_markdown(*f));
}

/// The finding a review gets from the provider's output.
pub open spec fn review_finding_for(output: Seq<char>) -> (ReviewSeverity, Seq<char>) {
    if seq_contains(output, "CRITICAL"@) || seq_contains(output, "critical"@) {
        (ReviewSeverity::Critical, "Critical issue detected in review output"@)
    } else if seq_contains(output, "ERROR"@) || seq_contains(output, "error"@) {
        (ReviewSeverity::Error, "Error detected in review output"@)
    } else {
        (ReviewSeverity::Info, "Review completed without critical findings"@)
    }
}

/// Turns a provider's output into a review with one finding in category
/// `agent`: critical when the output mentions a critical issue, an error when
/// it mentions an error, otherwise an informational note.
pub fn run_review(task: &ReviewTask, provider_output: &str) -> (r: ReviewResult)
    ensures
        r.task_id@ == task.id@,
        r.summary@ == "Agent review of: "@ + task.subject@,
        r.findings@.len() == 1,
        r.findings@[0].severity == review_finding_for(provider_output@).0,
        r.findings@[0].category@ == "agent"@,
        r.findings@[0].message@ == review_finding_for(provider_output@).1,
        r.findings@[0].location is None,
        r.findings@[0].suggestion is None,
        r.passed == (severity_rank(review_finding_for(provider_output@).0) < 2),
{
    let mut summary = string_with_capacity(0);
    push_str(&mut summary, "Agent review of: ");
    push_str(&mut summary, task.subject.as_str());
    let result = ReviewResult::new(task.id.as_str(), summary.as_str());
    if contains_str(provider_output, "CRITICAL") || contains_str(provider_output, "critical") {
        result.add_finding(ReviewFinding::critical("agent", "Critical issue detected in review output"))
    } else if contains_str(provider_output, "ERROR") || contains_str(provider_output, "error") {
        result.add_finding(ReviewFinding::error("agent", "Error detected in review output"))
    } else {
        result.add_finding(ReviewFinding::info("agent", "Review completed without critical findings"))
    }
}

} // verus!
