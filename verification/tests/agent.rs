use polish::agent::audit::{AgentAuditEntry, AgentAuditLog};
use polish::agent::permissions::{AgentPermissions, PermissionGrant};
use polish::agent::provider::{ProviderKind, RegisteredAgent};
use polish::agent::registry::AgentRegistry;
use polish::agent::review::{run_review, ReviewFinding, ReviewResult, ReviewSeverity, ReviewTask};
use polish::agent::task::{AgentTask, TaskResult, TaskStatus};

#[test]
fn permission_presets_and_grants() {
    let none = AgentPermissions::none();
    assert!(!none.check(&PermissionGrant::ReadContext));
    let ro = AgentPermissions::read_only();
    assert!(ro.check(&PermissionGrant::ReadContext));
    assert!(!ro.check(&PermissionGrant::WriteOutput));
    let std = AgentPermissions::standard().grant(PermissionGrant::RunSubagent).grant(PermissionGrant::RunSubagent);
    assert!(std.check(&PermissionGrant::WriteOutput));
    assert!(std.check(&PermissionGrant::RunSubagent));
    assert_eq!(std.list_grants().len(), 3);
    assert_eq!(
        none.assert_has(&PermissionGrant::AccessDatabase).unwrap_err(),
        "Agent missing permission: access_database"
    );
    assert!(ro.assert_has(&PermissionGrant::ReadContext).is_ok());
}

#[test]
fn deny_all_overrides_every_grant() {
    let p = AgentPermissions::standard().grant(PermissionGrant::ModifyState).deny_all();
    for g in [
        PermissionGrant::ReadContext,
        PermissionGrant::WriteOutput,
        PermissionGrant::ModifyState,
        PermissionGrant::SendNotification,
    ] {
        assert!(!p.check(&g));
        assert!(p.assert_has(&g).is_err());
    }
    assert!(!p.grant(PermissionGrant::CallExternalApi).check(&PermissionGrant::CallExternalApi));
}

#[test]
fn names_of_kinds_and_statuses() {
    assert_eq!(ProviderKind::OpenAI.as_str(), "openai");
    assert_eq!(ProviderKind::Mcp.as_str(), "mcp");
    assert_eq!(TaskStatus::Cancelled.as_str(), "cancelled");
    assert_eq!(PermissionGrant::CallExternalApi.as_str(), "call_external_api");
    assert_eq!(ReviewSeverity::Warning.as_str(), "warning");
}

#[test]
fn tasks_and_results() {
    let t = AgentTask::new_at("a1", "do it", 42).with_context("k", "v");
    assert_eq!(t.id, "task_42");
    assert_eq!(t.status, TaskStatus::Pending);
    assert_eq!(t.context.len(), 1);
    let now = AgentTask::new("a1", "p");
    assert_eq!(now.id, format!("task_{}", now.created_at));
    assert!(now.created_at > 1_600_000_000);
    assert!(TaskResult::success("t", "out").is_ok());
    let f = TaskResult::failure("t", "bad");
    assert!(!f.is_ok());
    assert_eq!(f.error, Some("bad".to_string()));
}

#[test]
fn audit_entry_json() {
    let e = AgentAuditEntry::new_at("t1", "a1", "call", "ok", 7).with_detail("said \"hi\"");
    assert_eq!(
        e.to_json(),
        "{\"ts\":7,\"task_id\":\"t1\",\"agent_id\":\"a1\",\"action\":\"call\",\"outcome\":\"ok\",\"detail\":\"said \\\"hi\\\"\"}"
    );
    let plain = AgentAuditEntry::new_at("t", "a", "x", "y", 0);
    assert_eq!(plain.to_json(), "{\"ts\":0,\"task_id\":\"t\",\"agent_id\":\"a\",\"action\":\"x\",\"outcome\":\"y\"}");
}

#[test]
fn audit_log_drops_oldest_beyond_bound() {
    let mut log = AgentAuditLog::new(2);
    assert!(log.is_empty());
    log.log(AgentAuditEntry::new_at("t1", "a", "x", "y", 1));
    log.log(AgentAuditEntry::new_at("t2", "a", "x", "y", 2));
    log.log(AgentAuditEntry::new_at("t1", "a", "x", "y", 3));
    assert_eq!(log.len(), 2);
    let ts: Vec<u64> = log.entries().iter().map(|e| e.ts).collect();
    assert_eq!(ts, vec![2, 3]);
    let t1: Vec<u64> = log.entries_for_task("t1").iter().map(|e| e.ts).collect();
    assert_eq!(t1, vec![3]);
    assert_eq!(
        log.to_jsonl(),
        "{\"ts\":2,\"task_id\":\"t2\",\"agent_id\":\"a\",\"action\":\"x\",\"outcome\":\"y\"}\n\
{\"ts\":3,\"task_id\":\"t1\",\"agent_id\":\"a\",\"action\":\"x\",\"outcome\":\"y\"}"
    );
}

#[test]
fn review_passes_until_an_error_or_worse() {
    let r = ReviewResult::new("r1", "s")
        .add_finding(ReviewFinding::info("style", "ok"))
        .add_finding(ReviewFinding::warning("perf", "slow").at("src/a.rs:3"));
    assert!(r.passed);
    assert_eq!(r.warning_count(), 1);
    let r = r.add_finding(ReviewFinding::error("sec", "leak").suggest("escape it"));
    assert!(!r.passed);
    assert_eq!(r.error_count(), 1);
    assert_eq!(r.critical_count(), 0);
    let r = r.add_finding(ReviewFinding::info("x", "y"));
    assert!(!r.passed);
}

#[test]
fn review_markdown_report() {
    let r = ReviewResult::new("r1", "All good")
        .add_finding(ReviewFinding::critical("sec", "xss").at("a.rs").suggest("escape"));
    assert_eq!(
        r.to_markdown(),
        "# Review: r1\n\n**Summary**: All good\n\n**Status**: FAILED\n\n## Findings\n\n\
- **[CRITICAL]** sec: xss at `a.rs`\n  - Suggestion: escape\n"
    );
    assert_eq!(
        ReviewResult::new("r2", "none").to_markdown(),
        "# Review: r2\n\n**Summary**: none\n\n**Status**: PASSED\n\n"
    );
}

#[test]
fn run_review_classifies_provider_output() {
    let task = ReviewTask::new_at("login form", 5).with_context("ctx").with_instruction("check");
    assert_eq!(task.id, "review_5");
    let r = run_review(&task, "found a CRITICAL issue");
    assert!(!r.passed);
    assert_eq!(r.summary, "Agent review of: login form");
    assert_eq!(r.findings[0].severity, ReviewSeverity::Critical);
    assert_eq!(r.findings[0].message, "Critical issue detected in review output");
    let r = run_review(&task, "an error here");
    assert_eq!(r.findings[0].severity, ReviewSeverity::Error);
    let r = run_review(&task, "fine");
    assert!(r.passed);
    assert_eq!(r.findings[0].category, "agent");
    assert_eq!(r.findings[0].message, "Review completed without critical findings");
    assert!(ReviewTask::new("x").id.starts_with("review_"));
}

fn registered(id: &str, name: &str) -> RegisteredAgent {
    RegisteredAgent {
        id: id.to_string(),
        name: name.to_string(),
        description: "d".to_string(),
        provider_kind: ProviderKind::Native,
        capabilities: vec!["review".to_string()],
        enabled: true,
    }
}

#[test]
fn registry_replaces_agents_and_providers_by_id() {
    let mut r: AgentRegistry<&'static str> = AgentRegistry::new();
    r.register_agent(registered("a", "first"));
    r.register_agent(registered("b", "second"));
    r.register_agent(registered("a", "replaced"));
    assert_eq!(r.agent_count(), 2);
    assert_eq!(r.get_agent("a").unwrap().name, "replaced");
    assert_eq!(r.get_agent("a").unwrap().capabilities, vec!["review".to_string()]);
    assert!(r.get_agent("c").is_none());
    let names: Vec<String> = r.list_agents().into_iter().map(|a| a.name).collect();
    assert_eq!(names, vec!["replaced".to_string(), "second".to_string()]);
    r.register_provider("p", "one");
    r.register_provider("p", "two");
    assert_eq!(r.provider_count(), 1);
    assert_eq!(r.get_provider("p"), Some(&"two"));
    assert_eq!(r.get_provider("q"), None);
}
