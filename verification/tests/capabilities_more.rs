use polish::capabilities::leakage::scan_html_for_leakage;
use polish::capabilities::matrix::{CapabilityMatrix, CapabilityRow};
use polish::capabilities::surface::{Surface, SurfacePolicy};

fn matrix() -> CapabilityMatrix {
    CapabilityMatrix::new()
        .add_row(
            CapabilityRow::new("transfer")
                .add("amount", "form", SurfacePolicy::new(Surface::PrimaryUi, "Amount", "shown"))
                .add("api_key", "env", SurfacePolicy::new(Surface::HiddenEnforced, "Key", "secret"))
                .add("email", "profile", SurfacePolicy::new(Surface::SecondaryUi, "Email", "contact").pii()),
        )
        .add_row(
            CapabilityRow::new("debug")
                .add("stack", "panic_hook", SurfacePolicy::new(Surface::NeverUi, "Stack", "internal"))
                .add("trace_id", "tracing", SurfacePolicy::new(Surface::OperatorOnly, "Trace", "ops").audit()),
        )
}

#[test]
fn surfaces_classify_visibility() {
    assert!(Surface::PrimaryUi.is_user_visible());
    assert!(Surface::CollapsedUi.allows_in_html());
    assert!(!Surface::ApiOnly.allows_in_html());
    assert!(Surface::ApiOnly.allows_in_api());
    assert!(Surface::NeverUi.is_restricted());
    assert!(!Surface::NeverUi.allows_in_api());
    assert!(Surface::DocsOnly.allows_in_docs());
    assert_eq!(Surface::HiddenEnforced.as_str(), "HiddenEnforced");
    assert_eq!(Surface::AgentOnly.to_string(), "AgentOnly");
}

#[test]
fn html_visible_surfaces_are_api_visible() {
    let all = [
        Surface::PrimaryUi,
        Surface::SecondaryUi,
        Surface::CollapsedUi,
        Surface::ApiOnly,
        Surface::DocsOnly,
        Surface::OperatorOnly,
        Surface::HiddenEnforced,
        Surface::AgentOnly,
        Surface::NeverUi,
    ];
    for s in all.iter() {
        if s.allows_in_html() {
            assert!(s.allows_in_api());
        }
    }
}

#[test]
fn matrix_queries() {
    let m = matrix();
    assert_eq!(m.find_entry("transfer", "email").unwrap().policy.label, "Email");
    assert!(m.find_entry("transfer", "stack").is_none());
    let forbidden: Vec<(&str, &str)> = m.all_forbidden().iter().map(|(c, e)| (*c, e.id.as_str())).collect();
    assert_eq!(forbidden, vec![("transfer", "api_key"), ("debug", "stack")]);
    let pii: Vec<&str> = m.all_pii().iter().map(|(_, e)| e.id.as_str()).collect();
    assert_eq!(pii, vec!["email"]);
    let row = &m.rows[0];
    assert_eq!(row.surface_of("api_key"), Some(&Surface::HiddenEnforced));
    assert_eq!(row.surface_of("nope"), None);
    let visible: Vec<&str> = row.visible_entries().iter().map(|e| e.id.as_str()).collect();
    assert_eq!(visible, vec!["amount", "email"]);
    let hidden: Vec<&str> = row.forbidden_entries().iter().map(|e| e.id.as_str()).collect();
    assert_eq!(hidden, vec!["api_key"]);
}

#[test]
fn matrix_markdown_table() {
    let m = CapabilityMatrix::new().add_row(
        CapabilityRow::new("c")
            .add("a", "s", SurfacePolicy::new(Surface::ApiOnly, "A", "r"))
            .add("b", "t", SurfacePolicy::new(Surface::PrimaryUi, "B", "r").pii()),
    );
    assert_eq!(
        m.to_markdown(),
        "| Component | Field | Surface | Label | PII |\n|---|---|---|---|---|\n\
| c | a | ApiOnly | A | no |\n| c | b | PrimaryUi | B | yes |\n"
    );
}

#[test]
fn leakage_report_names_each_leak_by_id_or_source() {
    let m = matrix();
    let report = scan_html_for_leakage("<p>api_key and panic_hook</p>", &m);
    assert!(!report.is_clean());
    assert_eq!(report.violations.len(), 2);
    assert_eq!(report.checked_html_fields, 2);
    assert_eq!(
        report.summary(),
        "2 leakage violation(s) found:\n  [HiddenEnforced] transfer.api_key in html_output — NeverUi/HiddenEnforced field 'api_key' found in HTML output\n  [NeverUi] debug.stack in html_output — NeverUi/HiddenEnforced field 'stack' found in HTML output"
    );
    let clean = scan_html_for_leakage("<p>amount: 5</p>", &m);
    assert!(clean.is_clean());
    assert_eq!(clean.summary(), "No leakage violations. Checked 2 HTML + 0 API fields.");
}
