use polish::state::machine::{Event, MachineBuilder, StateMachine};

fn transfer_machine() -> StateMachine {
    MachineBuilder::new("transfer")
        .initial("idle")
        .on("idle", "valid_input", "ready")
        .on("ready", "submit", "executing")
        .on("executing", "confirmed", "success")
        .on("executing", "failed", "error")
        .on("error", "valid_input", "ready")
        .on("success", "new_intent", "idle")
        .build()
}

#[test]
fn happy_path() {
    let mut m = transfer_machine();
    assert_eq!(m.current().as_str(), "idle");
    m.transition(&Event::new("valid_input")).unwrap();
    m.transition(&Event::new("submit")).unwrap();
    m.transition(&Event::new("confirmed")).unwrap();
    assert_eq!(m.current().as_str(), "success");
}

#[test]
fn machine_invalid_transition_rejected() {
    let mut m = transfer_machine();
    let err = m.transition(&Event::new("submit"));
    assert!(err.is_err());
}

#[test]
fn error_recovery() {
    let mut m = transfer_machine();
    m.transition(&Event::new("valid_input")).unwrap();
    m.transition(&Event::new("submit")).unwrap();
    m.transition(&Event::new("failed")).unwrap();
    assert_eq!(m.current().as_str(), "error");
    m.transition(&Event::new("valid_input")).unwrap();
    assert_eq!(m.current().as_str(), "ready");
}
