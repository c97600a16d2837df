//! A state machine harness for tests over the caller's own state and event types.
use vstd::prelude::*;
use crate::text::{push_str, string_with_capacity};
use vstd::std_specs::cmp::PartialEqSpec;

verus! {

/// `format!("{:?}", x)` for a value of the caller's type. What the text says
/// is up to the type's `Debug`.
#[verifier::external_body]
fn debug_value<T: std::fmt::Debug>(x: &T) -> String {
    format!("{:?}", x)
}

/// A transition table over the caller's types: states and events are compared
/// with their own `==` and copied with their own `clone`.
pub struct StateMachineHarness<S: Clone + Eq + std::fmt::Debug, E: Clone + std::fmt::Debug> {
    current: S,
    history: Vec<(S, E, S)>,
    transitions: Vec<(S, E, S)>,
}

/// Whether row `t` leaves `from` on `event`, by the types' own equality.
pub open spec fn row_matches<S: PartialEq, E: PartialEq>(t: (S, E, S), from: S, event: E) -> bool {
    t.0.eq_spec(&from) && t.1.eq_spec(&event)
}

impl<S: Clone + Eq + std::fmt::Debug, E: Clone + Eq + std::fmt::Debug> StateMachineHarness<S, E> {
    pub closed spec fn current_spec(&self) -> S {
        self.current
    }

    pub closed spec fn table(&self) -> Seq<(S, E, S)> {
        self.transitions@
    }

    pub closed spec fn history_spec(&self) -> Seq<(S, E, S)> {
        self.history@
    }

    pub fn new(initial: S) -> (h: Self)
        ensures
            h.current_spec() == initial,
            h.table().len() == 0,
            h.history_spec().len() == 0,
    {
        StateMachineHarness { current: initial, history: Vec::new(), transitions: Vec::new() }
    }

    pub fn allow(self, from: S, event: E, to: S) -> (h: Self)
        ensures
            h.current_spec() == self.current_spec(),
            h.table() == self.table().push((from, event, to)),
            h.history_spec() == self.history_spec(),
    {
        let mut h = self;
        h.transitions.push((from, event, to));
        h
    }

    /// Takes the first allowed transition from the current state on `event`:
    /// the machine moves to (a clone of) its target and records the step. With
    /// no such transition the event is refused and nothing changes.
    pub fn send(&mut self, event: E) -> (r: Result<&S, String>)
        ensures
            r is Err ==> final(self).current_spec() == old(self).current_spec()
                && final(self).history_spec() == old(self).history_spec(),
            r is Ok ==> final(self).history_spec().len() == old(self).history_spec().len() + 1
                && final(self).history_spec().drop_last() == old(self).history_spec()
                && final(self).history_spec().last().1 == event
                && cloned(old(self).current_spec(), final(self).history_spec().last().0),
            r matches Ok(s) ==> final(self).current_spec() == *s,
            final(self).table() == old(self).table(),
            (S::obeys_eq_spec() && E::obeys_eq_spec()) ==> exists|from: S| #[trigger] cloned(old(self).current_spec(), from) && {
                &&& r is Err ==> forall|i: int| 0 <= i < old(self).table().len()
                    ==> !row_matches(#[trigger] old(self).table()[i], from, event)
                &&& r matches Ok(s) ==> exists|i: int| {
                    &&& 0 <= i < old(self).table().len()
                    &&& forall|j: int| 0 <= j < i ==> !row_matches(#[trigger] old(self).table()[j], from, event)
                    &&& row_matches(#[trigger] old(self).table()[i], from, event)
                    &&& cloned(old(self).table()[i].2, *s)
                    &&& cloned(old(self).table()[i].2, final(self).history_spec().last().2)
                    &&& final(self).history_spec().last().0 == from
                }
            },
    {
        let from = self.current.clone();
        let mut i: usize = 0;
        while i < self.transitions.len()
            invariant
                i <= self.transitions@.len(),
                self.current == old(self).current,
                self.history@ == old(self).history@,
                self.transitions@ == old(self).transitions@,
                cloned(old(self).current, from),
                (S::obeys_eq_spec() && E::obeys_eq_spec()) ==> forall|j: int| 0 <= j < i
                    ==> !row_matches(#[trigger] self.transitions@[j], from, event),
            decreases self.transitions@.len() - i,
        {
            let t = &self.transitions[i];
            if t.0 == from && t.1 == event {
                let to = t.2.clone();
                let to2 = t.2.clone();
                let ghost tov = to;
                let ghost tov2 = to2;
                let ghost row = self.transitions@[i as int];
                let ghost old_hist = self.history@;
                self.history.push((from, event, to2));
                self.current = to;
                proof {
                    assert(self.history@.drop_last() =~= old_hist);
                    if S::obeys_eq_spec() && E::obeys_eq_spec() {
                        assert(row_matches(row, from, event));
                        assert(cloned(row.2, tov));
                    }
                }
                let r = &self.current;
                assert(*r == tov);
                proof {
                    if S::obeys_eq_spec() && E::obeys_eq_spec() {
                        assert(cloned(old(self).current_spec(), from));
                        assert(row_matches(old(self).table()[i as int], from, event));
                        assert(cloned(old(self).table()[i as int].2, *r));
                        assert(cloned(old(self).table()[i as int].2, tov2));
                        assert(self.history@.last() == (from, event, tov2));
                    }
                }
                return Ok(r);
            }
            i = i + 1;
        }
        proof {
            assert(cloned(old(self).current_spec(), from));
        }
        let mut m = string_with_capacity(0);
        push_str(&mut m, "Invalid transition from ");
        let a = debug_value(&from);
        push_str(&mut m, a.as_str());
        push_str(&mut m, " on ");
        let b = debug_value(&event);
        push_str(&mut m, b.as_str());
        Err(m)
    }

    pub fn state(&self) -> (s: &S)
        ensures
            *s == self.current_spec(),
    {
        &self.current
    }

    pub fn history_len(&self) -> (n: usize)
        ensures
            n == self.history_spec().len(),
    {
        self.history.len()
    }

    /// Ok when the current state equals `expected` by the type's equality.
    pub fn assert_state(&self, expected: &S) -> (r: Result<(), String>)
        ensures
            S::obeys_eq_spec() ==> (r is Ok <==> self.current_spec().eq_spec(expected)),
    {
        if self.current == *expected {
            Ok(())
        } else {
            let mut m = string_with_capacity(0);
            push_str(&mut m, "Expected state ");
            let a = debug_value(expected);
            push_str(&mut m, a.as_str());
            push_str(&mut m, ", got ");
            let b = debug_value(&self.current);
            push_str(&mut m, b.as_str());
            Err(m)
        }
    }
}

} // verus!
