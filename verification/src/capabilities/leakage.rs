//! Scanning rendered output for fields that must never appear in it.
use vstd::prelude::*;
use crate::capabilities::matrix::{CapabilityEntry, CapabilityMatrix, all_forbidden_of};
use crate::capabilities::surface::surface_name;
use crate::text::{contains_str, decimal, join, join_strings, push_str, seq_contains, string_with_capacity,
    to_owned_string, u64_to_string};

verus! {

#[derive(Debug, Clone)]
pub struct LeakageViolation {
    pub component: String,
    pub field: String,
    pub surface: String,
    pub location: String,
    pub reason: String,
}

/// A violation as (component, field, surface, location, reason).
pub type ViolationView = (Seq<char>, Seq<char>, Seq<char>, Seq<char>, Seq<char>);

pub open spec fn violation_view(v: LeakageViolation) -> ViolationView {
    (v.component@, v.field@, v.surface@, v.location@, v.reason@)
}

#[derive(Debug)]
pub struct LeakageReport {
    pub violations: Vec<LeakageViolation>,
    pub checked_html_fields: usize,
    pub checked_api_fields: usize,
}

/// Whether the entry's id or source occurs in `html`.
pub open spec fn leaks(html: Seq<char>, e: CapabilityEntry) -> bool {
    seq_contains(html, e.id@) || seq_contains(html, e.source@)
}

/// The violation reported for a forbidden entry found in HTML output.
pub open spec fn html_violation(component: Seq<char>, e: CapabilityEntry) -> ViolationView {
    (component, e.id@, surface_name(e.policy.surface), "html_output"@,
        "NeverUi/HiddenEnforced field '"@ + e.id@ + "' found in HTML output"@)
}

/// The violations of the tagged entries that leak into `html`, in order.
pub open spec fn violations_of(html: Seq<char>, fs: Seq<(Seq<char>, CapabilityEntry)>) -> Seq<ViolationView>
    decreases fs.len(),
{
    if fs.len() == 0 {
        seq![]
    } else {
        let r = violations_of(html, fs.drop_last());
        if leaks(html, fs.last().1) { r.push(html_violation(fs.last().0, fs.last().1)) } else { r }
    }
}

/// The line of one violation in a summary.
pub open spec fn violation_line(v: ViolationView) -> Seq<char> {
    "  ["@ + v.2 + "] "@ + v.0 + "."@ + v.1 + " in "@ + v.3 + " — "@ + v.4
}

/// The summary of a report.
pub open spec fn summary_text(vs: Seq<ViolationView>, html_fields: usize, api_fields: usize) -> Seq<char> {
    if vs.len() == 0 {
        "No leakage violations. Checked "@ + decimal(html_fields as nat) + " HTML + "@ + decimal(api_fields as nat)
            + " API fields."@
    } else {
        decimal(vs.len()) + " leakage violation(s) found:\n"@ + join(vs.map_values(|v: ViolationView| violation_line(v)), "\n"@)
    }
}

impl LeakageReport {
    pub open spec fn view_violations(&self) -> Seq<ViolationView> {
        self.violations@.map_values(|v: LeakageViolation| violation_view(v))
    }

    pub fn is_clean(&self) -> (b: bool)
        ensures
            b == (self.violations@.len() == 0),
    {
        self.violations.len() == 0
    }

    pub fn summary(&self) -> (s: String)
        ensures
            s@ == summary_text(self.view_violations(), self.checked_html_fields, self.checked_api_fields),
    {
        let mut s = string_with_capacity(0);
        if self.violations.len() == 0 {
            push_str(&mut s, "No leakage violations. Checked ");
            let a = u64_to_string(self.checked_html_fields as u64);
            push_str(&mut s, a.as_str());
            push_str(&mut s, " HTML + ");
            let b = u64_to_string(self.checked_api_fields as u64);
            push_str(&mut s, b.as_str());
            push_str(&mut s, " API fields.");
            assert(s@ =~= summary_text(self.view_violations(), self.checked_html_fields, self.checked_api_fields));
            return s;
        }
        let ghost vv = self.view_violations();
        let mut lines: Vec<String> = Vec::new();
        let mut i: usize = 0;
        while i < self.violations.len()
            invariant
                i <= self.violations@.len(),
                vv == self.view_violations(),
                lines@.map_values(|l: String| l@) == vv.take(i as int).map_values(|v: ViolationView| violation_line(v)),
            decreases self.violations@.len() - i,
        {
            let v = &self.violations[i];
            let mut l = string_with_capacity(0);
            push_str(&mut l, "  [");
            push_str(&mut l, v.surface.as_str());
            push_str(&mut l, "] ");
            push_str(&mut l, v.component.as_str());
            push_str(&mut l, ".");
            push_str(&mut l, v.field.as_str());
            push_str(&mut l, " in ");
            push_str(&mut l, v.location.as_str());
            push_str(&mut l, " — ");
            push_str(&mut l, v.reason.as_str());
            let ghost before = lines@;
            proof {
                assert(l@ =~= violation_line(vv[i as int]));
            }
            lines.push(l);
            proof {
                assert(lines@.map_values(|l: String| l@) =~= before.map_values(|l: String| l@).push(violation_line(vv[i as int])));
                assert(vv.take(i + 1).map_values(|v: ViolationView| violation_line(v))
                    =~= vv.take(i as int).map_values(|v: ViolationView| violation_line(v)).push(violation_line(vv[i as int])));
            }
            i = i + 1;
        }
        proof {
            assert(vv.take(vv.len() as int) == vv);
        }
        let n = u64_to_string(self.violations.len() as u64);
        push_str(&mut s, n.as_str());
        push_str(&mut s, " leakage violation(s) found:\n");
        let body = join_strings(&lines, "\n");
        push_str(&mut s, body.as_str());
        assert(s@ =~= summary_text(self.view_violations(), self.checked_html_fields, self.checked_api_fields));
        s
    }
}

impl Default for LeakageReport {
    fn default() -> (r: Self)
        ensures
            r.violations@.len() == 0,
            r.checked_html_fields == 0,
            r.checked_api_fields == 0,
    {
        LeakageReport { violations: Vec::new(), checked_html_fields: 0, checked_api_fields: 0 }
    }
}

/// Scan HTML output for forbidden capability fields: each forbidden entry whose
/// id or source occurs in the HTML is reported.
pub fn scan_html_for_leakage(html: &str, matrix: &CapabilityMatrix) -> (report: LeakageReport)
    ensures
        report.view_violations() == violations_of(html@, all_forbidden_of(matrix.rows@)),
        report.checked_html_fields == all_forbidden_of(matrix.rows@).len(),
        report.checked_api_fields == 0,
{
    let mut report = LeakageReport::default();
    let forbidden = matrix.all_forbidden();
    let ghost fs = forbidden@.map_values(|p: (&str, &CapabilityEntry)| (p.0@, *p.1));
    let mut i: usize = 0;
    while i < forbidden.len()
        invariant
            i <= forbidden@.len(),
            fs == forbidden@.map_values(|p: (&str, &CapabilityEntry)| (p.0@, *p.1)),
            report.view_violations() == violations_of(html@, fs.take(i as int)),
            report.checked_html_fields == i,
            report.checked_api_fields == 0,
        decreases forbidden@.len() - i,
    {
        let (component, entry) = forbidden[i];
        report.checked_html_fields = report.checked_html_fields + 1;
        proof {
            assert(fs.take(i + 1).drop_last() == fs.take(i as int));
            assert(fs.take(i + 1).last() == fs[i as int]);
            assert(fs[i as int] == (component@, *entry));
        }
        if contains_str(html, entry.id.as_str()) || contains_str(html, entry.source.as_str()) {
            let mut reason = string_with_capacity(0);
            push_str(&mut reason, "NeverUi/HiddenEnforced field '");
            push_str(&mut reason, entry.id.as_str());
            push_str(&mut reason, "' found in HTML output");
            let v = LeakageViolation {
                component: to_owned_string(component),
                field: entry.id.clone(),
                surface: entry.policy.surface.to_string(),
                location: to_owned_string("html_output"),
                reason,
            };
            let ghost before = report.violations@;
            proof {
                assert(violation_view(v) =~= html_violation(component@, *entry));
            }
            report.violations.push(v);
            proof {
                assert(report.view_violations() =~= before.map_values(|v: LeakageViolation| violation_view(v))
                    .push(html_violation(component@, *entry)));
            }
        }
        i = i + 1;
    }
    proof {
        assert(fs.take(fs.len() as int) == fs);
    }
    report
}

/// A report is clean exactly when no forbidden entry's id or source occurs in
/// the scanned HTML.
pub proof fn law_clean_iff_no_leak(html: Seq<char>, fs: Seq<(Seq<char>, CapabilityEntry)>)
    ensures
        violations_of(html, fs).len() == 0 <==> forall|i: int| 0 <= i < fs.len() ==> !leaks(html, #[trigger] fs[i].1),
    decreases fs.len(),
{
    if fs.len() > 0 {
        let d = fs.drop_last();
        law_clean_iff_no_leak(html, d);
        if violations_of(html, fs).len() == 0 {
            assert forall|i: int| 0 <= i < fs.len() implies !leaks(html, #[trigger] fs[i].1) by {
                if i < d.len() {
                    assert(fs[i] == d[i]);
                }
            }
        } else if forall|i: int| 0 <= i < fs.len() ==> !leaks(html, #[trigger] fs[i].1) {
            assert forall|i: int| 0 <= i < d.len() implies !leaks(html, #[trigger] d[i].1) by {
                assert(fs[i] == d[i]);
            }
            assert(!leaks(html, fs[fs.len() - 1].1));
        }
    }
}

} // verus!
