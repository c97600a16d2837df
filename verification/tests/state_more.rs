use std::sync::Arc;

use polish::state::error::StateError;
use polish::state::machine::{Event, MachineBuilder, State, StateMachine};
use polish::state::transition::{Guard, Transition};

struct Fixed(bool);

impl Guard for Fixed {
    fn check(&self) -> bool {
        self.0
    }
}

fn door() -> StateMachine {
    StateMachine::new("door", State::new("closed"))
        .add_transition(Transition::new("closed", "open", "opened"))
        .add_transition(Transition::new("opened", "close", "closed"))
        .add_transition(Transition::new("closed", "knock", "closed"))
}

#[test]
fn can_transition_matches_table() {
    let m = door();
    assert!(m.can_transition(&Event::new("open")));
    assert!(m.can_transition(&Event::new("knock")));
    assert!(!m.can_transition(&Event::new("close")));
    assert!(m.is_in(&State::new("closed")));
    let evs: Vec<&str> = m.valid_events().iter().map(|e| e.0.as_str()).collect();
    assert_eq!(evs, vec!["open", "knock"]);
}

#[test]
fn refused_event_changes_nothing_and_names_state() {
    let mut m = door();
    let err = m.transition(&Event::new("close")).unwrap_err();
    assert_eq!(err.to_string(), "invalid transition from 'closed' on event 'close'");
    assert_eq!(m.current().as_str(), "closed");
    assert_eq!(m.history().len(), 0);
}

#[test]
fn history_records_steps_and_reset_clears_it() {
    let mut m = door();
    m.transition(&Event::new("open")).unwrap();
    m.transition(&Event::new("close")).unwrap();
    let h = m.history();
    assert_eq!(h.len(), 2);
    assert_eq!((h[0].0.as_str(), h[0].1.0.as_str(), h[0].2.as_str()), ("closed", "open", "opened"));
    assert_eq!((h[1].0.as_str(), h[1].1.0.as_str(), h[1].2.as_str()), ("opened", "close", "closed"));
    m.transition(&Event::new("open")).unwrap();
    m.reset();
    assert_eq!(m.current().as_str(), "closed");
    assert_eq!(m.history().len(), 0);
}

#[test]
fn guard_decides_guarded_transitions() {
    let mut locked = Transition::new("closed", "open", "opened");
    locked.guard = Some(Arc::new(Fixed(false)));
    let mut m = StateMachine::new("door", State::new("closed")).add_transition(locked);
    match m.transition(&Event::new("open")) {
        Err(StateError::GuardFailed { state }) => assert_eq!(state, "closed"),
        _ => panic!("expected a failed guard"),
    }
    assert_eq!(
        StateError::GuardFailed { state: "closed".into() }.to_string(),
        "transition guard failed in state 'closed'"
    );
    assert_eq!(m.current().as_str(), "closed");

    let mut open = Transition::new("closed", "open", "opened");
    open.guard = Some(Arc::new(Fixed(true)));
    let mut m = StateMachine::new("door", State::new("closed")).add_transition(open);
    assert_eq!(m.transition(&Event::new("open")).unwrap().as_str(), "opened");
}

#[test]
fn transition_with_uses_given_guard_result() {
    let mut guarded = Transition::new("a", "go", "b");
    guarded.guard = Some(Arc::new(Fixed(true)));
    let mut m = StateMachine::new("m", State::new("a")).add_transition(guarded);
    assert!(matches!(m.transition_with(&Event::new("go"), false), Err(StateError::GuardFailed { .. })));
    assert_eq!(m.transition_with(&Event::new("go"), true).unwrap().as_str(), "b");
}

#[test]
fn validate_reports_unreachable_initial_state() {
    let m = StateMachine::new("m", State::new("start")).add_transition(Transition::new("x", "e", "y"));
    assert_eq!(m.validate(), vec!["Initial state 'start' never appears in transitions".to_string()]);
    assert!(door().validate().is_empty());
    assert!(StateMachine::new("m", State::new("s")).validate().is_empty());
}

#[test]
fn first_matching_row_wins() {
    let mut m = MachineBuilder::new("m").initial("a").on("a", "e", "b").on("a", "e", "c").build();
    assert_eq!(m.transition(&Event::new("e")).unwrap().as_str(), "b");
}
