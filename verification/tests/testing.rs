use polish::testing::assert_html::{assert_contains, assert_no_script_injection};
use polish::testing::capability::CapabilityTestHarness;
use polish::testing::state::StateMachineHarness;

#[test]
fn detects_xss_script_tag() {
    let html = "<p>Hello &lt;script&gt;alert(1)&lt;/script&gt;</p>";
    assert_no_script_injection(html).unwrap();

    let html_unsafe = "<p>Hello <script>alert(1)</script></p>";
    assert!(assert_no_script_injection(html_unsafe).is_err());
}

#[test]
fn assert_contains_works() {
    assert_contains("<p>Hello</p>", "Hello").unwrap();
    assert!(assert_contains("<p>Hello</p>", "World").is_err());
}

#[test]
fn detects_secret_in_html() {
    let harness = CapabilityTestHarness::new().forbid("SECRET_KEY");
    let html = "<p>Your key is: SECRET_KEY_abc123</p>";
    let result = harness.check_html(html);
    assert!(!result.passed);
    assert_eq!(result.violations.len(), 1);
}

#[test]
fn capability_clean_html_passes() {
    let harness = CapabilityTestHarness::new().forbid("SECRET_KEY");
    let html = "<p>Hello world</p>";
    let result = harness.check_html(html);
    assert!(result.passed);
}

#[derive(Clone, Eq, PartialEq, Debug)]
enum HState {
    Idle,
    Active,
    Done,
}

#[derive(Clone, Eq, PartialEq, Debug)]
enum HEvent {
    Start,
    Complete,
}

#[test]
fn state_machine_transitions() {
    let mut m = StateMachineHarness::new(HState::Idle)
        .allow(HState::Idle, HEvent::Start, HState::Active)
        .allow(HState::Active, HEvent::Complete, HState::Done);

    m.send(HEvent::Start).unwrap();
    m.assert_state(&HState::Active).unwrap();
    m.send(HEvent::Complete).unwrap();
    m.assert_state(&HState::Done).unwrap();
}

#[test]
fn state_invalid_transition_rejected() {
    let mut m = StateMachineHarness::new(HState::Idle).allow(HState::Idle, HEvent::Start, HState::Active);
    let r = m.send(HEvent::Complete);
    assert!(r.is_err());
}
