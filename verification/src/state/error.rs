//! Why a state machine refused an event.
use vstd::prelude::*;
use crate::text::{push_str, string_with_capacity};

verus! {

#[derive(Debug)]
pub enum StateError {
    InvalidTransition { from: String, event: String },
    GuardFailed { state: String },
}

impl StateError {
    /// The message of the error.
    pub open spec fn message(&self) -> Seq<char> {
        match self {
            StateError::InvalidTransition { from, event } =>
                "invalid transition from '"@ + from@ + "' on event '"@ + event@ + "'"@,
            StateError::GuardFailed { state } => "transition guard failed in state '"@ + state@ + "'"@,
        }
    }

    pub fn to_string(&self) -> (s: String)
        ensures
            s@ == self.message(),
    {
        let mut s = string_with_capacity(0);
        match self {
            StateError::InvalidTransition { from, event } => {
                push_str(&mut s, "invalid transition from '");
                push_str(&mut s, from.as_str());
                push_str(&mut s, "' on event '");
                push_str(&mut s, event.as_str());
                push_str(&mut s, "'");
            },
            StateError::GuardFailed { state } => {
                push_str(&mut s, "transition guard failed in state '");
                push_str(&mut s, state.as_str());
                push_str(&mut s, "'");
            },
        }
        assert(s@ =~= self.message());
        s
    }
}

} // verus!
