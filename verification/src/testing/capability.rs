//! A test harness that checks rendered HTML for forbidden patterns.
use vstd::prelude::*;
use crate::testing::debug::{debug_list, debug_str, debug_strings, debug_text};
use crate::text::{contains_str, push_str, seq_contains, string_with_capacity, to_owned_string};

verus! {

#[derive(Debug, Clone)]
pub struct LeakageTestResult {
    pub passed: bool,
    pub violations: Vec<String>,
    pub checked_fields: usize,
}

impl LeakageTestResult {
    pub fn assert_clean(&self) -> (r: Result<(), String>)
        ensures
            r is Ok <==> self.passed,
            r matches Err(m) ==> m@ == "Leakage violations found: "@
                + debug_strings(self.violations@.map_values(|s: String| s@)),
    {
        if self.passed {
            Ok(())
        } else {
            let mut m = string_with_capacity(0);
            push_str(&mut m, "Leakage violations found: ");
            let d = debug_list(&self.violations);
            push_str(&mut m, d.as_str());
            Err(m)
        }
    }
}

/// The violation message of a forbidden pattern.
pub open spec fn pattern_violation(p: Seq<char>) -> Seq<char> {
    "Forbidden pattern found in HTML: "@ + debug_str(p)
}

/// The violations of the patterns that occur in `html`, in order.
pub open spec fn pattern_violations(html: Seq<char>, pats: Seq<Seq<char>>) -> Seq<Seq<char>>
    decreases pats.len(),
{
    if pats.len() == 0 {
        seq![]
    } else {
        let r = pattern_violations(html, pats.drop_last());
        if seq_contains(html, pats.last()) { r.push(pattern_violation(pats.last())) } else { r }
    }
}

pub struct CapabilityTestHarness {
    forbidden_patterns: Vec<String>,
}

impl CapabilityTestHarness {
    /// The forbidden patterns, in order.
    pub closed spec fn patterns(&self) -> Seq<Seq<char>> {
        self.forbidden_patterns@.map_values(|s: String| s@)
    }

    pub fn new() -> (h: Self)
        ensures
            h.patterns().len() == 0,
    {
        CapabilityTestHarness { forbidden_patterns: Vec::new() }
    }

    pub fn forbid(self, pattern: &str) -> (h: Self)
        ensures
            h.patterns() == self.patterns().push(pattern@),
    {
        let mut h = self;
        let ghost before = h.forbidden_patterns@;
        h.forbidden_patterns.push(to_owned_string(pattern));
        proof {
            assert(h.patterns() =~= before.map_values(|s: String| s@).push(pattern@));
        }
        h
    }

    /// Checks every pattern against `html`: one violation per pattern found.
    pub fn check_html(&self, html: &str) -> (r: LeakageTestResult)
        ensures
            r.violations@.map_values(|s: String| s@) == pattern_violations(html@, self.patterns()),
            r.passed == (r.violations@.len() == 0),
            r.checked_fields == self.patterns().len(),
    {
        let ghost ps = self.patterns();
        let mut violations: Vec<String> = Vec::new();
        let mut i: usize = 0;
        while i < self.forbidden_patterns.len()
            invariant
                i <= self.forbidden_patterns@.len(),
                ps == self.patterns(),
                violations@.map_values(|s: String| s@) == pattern_violations(html@, ps.take(i as int)),
            decreases self.forbidden_patterns@.len() - i,
        {
            let p = self.forbidden_patterns[i].as_str();
            proof {
                assert(ps.take(i + 1).drop_last() == ps.take(i as int));
                assert(ps.take(i + 1).last() == ps[i as int]);
            }
            if contains_str(html, p) {
                let mut m = string_with_capacity(0);
                push_str(&mut m, "Forbidden pattern found in HTML: ");
                let d = debug_text(p);
                push_str(&mut m, d.as_str());
                let ghost before = violations@;
                violations.push(m);
                proof {
                    assert(violations@.map_values(|s: String| s@) =~= before.map_values(|s: String| s@).push(pattern_violation(p@)));
                }
            }
            i = i + 1;
        }
        proof {
            assert(ps.take(ps.len() as int) == ps);
        }
        let passed = violations.len() == 0;
        LeakageTestResult { passed, violations, checked_fields: self.forbidden_patterns.len() }
    }
}

impl Default for CapabilityTestHarness {
    fn default() -> (h: Self)
        ensures
            h.patterns().len() == 0,
    {
        CapabilityTestHarness::new()
    }
}

/// A check passes exactly when no forbidden pattern occurs in the HTML.
pub proof fn law_check_passes_iff_clean(html: Seq<char>, pats: Seq<Seq<char>>)
    ensures
        pattern_violations(html, pats).len() == 0 <==> forall|i: int| 0 <= i < pats.len() ==> !seq_contains(html, #[trigger] pats[i]),
    decreases pats.len(),
{
    if pats.len() > 0 {
        let d = pats.drop_last();
        law_check_passes_iff_clean(html, d);
        if pattern_violations(html, pats).len() == 0 {
            assert forall|i: int| 0 <= i < pats.len() implies !seq_contains(html, #[trigger] pats[i]) by {
                if i < d.len() {
                    assert(pats[i] == d[i]);
                }
            }
        } else if forall|i: int| 0 <= i < pats.len() ==> !seq_contains(html, #[trigger] pats[i]) {
            assert forall|i: int| 0 <= i < d.len() implies !seq_contains(html, #[trigger] d[i]) by {
                assert(pats[i] == d[i]);
            }
            assert(!seq_contains(html, pats[pats.len() - 1]));
        }
    }
}

} // verus!
