use polish::strmap::StrMap;
use polish::testing::action::{ActionTestHarness, ActionTestResult};
use polish::testing::assert_html::{assert_attr, assert_contains, assert_no_script_injection, assert_not_contains};
use polish::testing::capability::{CapabilityTestHarness, LeakageTestResult};
use polish::testing::state::StateMachineHarness;

#[test]
fn assert_contains_message_quotes_needle_and_head() {
    let e = assert_contains("<p>Hello</p>", "Wor\"ld").unwrap_err();
    assert_eq!(e, "HTML does not contain: \"Wor\\\"ld\"\nHTML (first 500 chars): <p>Hello</p>");
}

#[test]
fn assert_contains_shows_only_first_500_bytes() {
    let html = "a".repeat(600);
    let e = assert_contains(&html, "zzz").unwrap_err();
    let expected = format!("HTML does not contain: \"zzz\"\nHTML (first 500 chars): {}", "a".repeat(500));
    assert_eq!(e, expected);
}

#[test]
fn assert_not_contains_reports_presence() {
    assert!(assert_not_contains("<p>ok</p>", "secret").is_ok());
    assert_eq!(
        assert_not_contains("<p>secret</p>", "secret").unwrap_err(),
        "HTML unexpectedly contains: \"secret\" at position 3"
    );
}

#[test]
fn assert_attr_finds_attribute_value() {
    assert!(assert_attr("<input name=\"q\" />", "name", "q").is_ok());
    assert_eq!(
        assert_attr("<input name=\"q\" />", "name", "r").unwrap_err(),
        "HTML does not contain attribute name=\"r\""
    );
}

#[test]
fn script_injection_check_ignores_case() {
    assert_eq!(
        assert_no_script_injection("<p><SCRIPT>x</SCRIPT></p>").unwrap_err(),
        "Potential script injection detected: \"<script\" found in HTML"
    );
    assert!(assert_no_script_injection("<img src=x OnError=alert(1)>").is_err());
    assert!(assert_no_script_injection("<a href=\"JavaScript:void(0)\">x</a>").is_err());
    assert!(assert_no_script_injection("<p>plain text</p>").is_ok());
}

#[test]
fn capability_check_lists_each_found_pattern() {
    let h = CapabilityTestHarness::new().forbid("a1").forbid("b2").forbid("c3");
    let r = h.check_html("xx a1 yy c3");
    assert!(!r.passed);
    assert_eq!(
        r.violations,
        vec!["Forbidden pattern found in HTML: \"a1\"".to_string(), "Forbidden pattern found in HTML: \"c3\"".to_string()]
    );
    let e = r.assert_clean().unwrap_err();
    assert_eq!(
        e,
        "Leakage violations found: [\"Forbidden pattern found in HTML: \\\"a1\\\"\", \"Forbidden pattern found in HTML: \\\"c3\\\"\"]"
    );
}

#[test]
fn clean_result_asserts_clean() {
    let r = LeakageTestResult { passed: true, violations: vec![], checked_fields: 0 };
    assert!(r.assert_clean().is_ok());
}

#[derive(Clone, Eq, PartialEq, Debug)]
enum Light {
    Red,
    Green,
}

#[test]
fn state_harness_messages_use_debug_text() {
    let mut m = StateMachineHarness::new(Light::Red).allow(Light::Red, 1u8, Light::Green);
    assert_eq!(m.assert_state(&Light::Green).unwrap_err(), "Expected state Green, got Red");
    assert_eq!(m.send(2u8).unwrap_err(), "Invalid transition from Red on 2");
    assert_eq!(m.history_len(), 0);
    assert_eq!(m.send(1u8).unwrap(), &Light::Green);
    assert_eq!(m.state(), &Light::Green);
    assert_eq!(m.history_len(), 1);
}

fn result(ok: bool, message: Option<&str>, redirect: Option<&str>) -> ActionTestResult {
    ActionTestResult {
        ok,
        output_kind: "redirect".to_string(),
        message: message.map(|s| s.to_string()),
        redirect_url: redirect.map(|s| s.to_string()),
        errors: StrMap::new(),
    }
}

#[test]
fn action_result_assertions() {
    assert!(result(true, None, None).assert_ok().is_ok());
    assert_eq!(result(false, Some("boom"), None).assert_ok().unwrap_err(), "Action failed: Some(\"boom\")");
    assert_eq!(result(false, None, None).assert_ok().unwrap_err(), "Action failed: None");
    assert!(result(true, None, Some("/a")).assert_redirect_to("/a").is_ok());
    assert_eq!(
        result(true, None, Some("/a")).assert_redirect_to("/b").unwrap_err(),
        "Expected redirect to \"/b\", got \"/a\""
    );
    assert_eq!(result(true, None, None).assert_redirect_to("/b").unwrap_err(), "No redirect in action result");
}

#[test]
fn action_field_error_assertions() {
    let mut errors = StrMap::new();
    errors.insert("amount".to_string(), "amount is required".to_string());
    let r = ActionTestResult { ok: false, output_kind: "error".into(), message: None, redirect_url: None, errors };
    assert!(r.assert_field_error("amount", "required").is_ok());
    assert_eq!(
        r.assert_field_error("amount", "positive").unwrap_err(),
        "Field \"amount\" error \"amount is required\" does not contain \"positive\""
    );
    assert_eq!(r.assert_field_error("dest", "x").unwrap_err(), "No error for field \"dest\"");
}

type Handler = Box<dyn Fn(&StrMap) -> ActionTestResult>;

fn echo(ok: bool) -> Handler {
    Box::new(move |fields: &StrMap| ActionTestResult {
        ok,
        output_kind: "echo".to_string(),
        message: fields.get("m").map(|s| s.to_string()),
        redirect_url: None,
        errors: StrMap::new(),
    })
}

#[test]
fn action_harness_runs_registered_handlers() {
    let mut h: ActionTestHarness<Handler> = ActionTestHarness::new();
    h.register("a", echo(false));
    h.register("a", echo(true));
    let mut fields = StrMap::new();
    fields.insert("m".to_string(), "hi".to_string());
    let r = h.run("a", fields);
    assert!(r.ok);
    assert_eq!(r.message, Some("hi".to_string()));
    let missing = h.run("b", StrMap::new());
    assert!(!missing.ok);
    assert_eq!(missing.output_kind, "error");
    assert_eq!(missing.message, Some("Unknown action: b".to_string()));
}
