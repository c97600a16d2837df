//! Transitions between the states of a machine, optionally guarded.
use vstd::prelude::*;
use std::sync::Arc;
use crate::state::machine::{Event, State};

verus! {

/// A condition checked when a guarded transition is taken; users implement it.
/// Nothing is assumed of what it returns.
pub trait Guard {
    fn check(&self) -> bool;
}

pub type TransitionGuard = Box<dyn Guard>;

#[derive(Clone)]
pub struct Transition {
    pub from: State,
    pub event: Event,
    pub to: State,
    pub guard: Option<Arc<dyn Guard>>,
}

/// A transition as (from, event, to, whether it is guarded).
pub open spec fn transition_view(t: Transition) -> (Seq<char>, Seq<char>, Seq<char>, bool) {
    (t.from.0@, t.event.0@, t.to.0@, t.guard is Some)
}

impl Transition {
    /// An unguarded transition.
    pub fn new(from: &str, event: &str, to: &str) -> (t: Self)
        ensures
            transition_view(t) == (from@, event@, to@, false),
    {
        Transition { from: State::new(from), event: Event::new(event), to: State::new(to), guard: None }
    }
}

} // verus!
