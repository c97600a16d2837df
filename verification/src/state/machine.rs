//! A typed state machine: a table of transitions, the current state and the
//! history of the transitions taken.
use vstd::prelude::*;
use crate::state::error::StateError;
use crate::state::transition::{Transition, transition_view};
use crate::text::{push_str, str_eq, string_with_capacity, to_owned_string};

verus! {

#[derive(Clone, Debug, PartialEq, Eq, Hash)]
pub struct State(pub String);

impl State {
    pub fn new(s: &str) -> (r: Self)
        ensures
            r.0@ == s@,
    {
        State(to_owned_string(s))
    }

    pub fn as_str(&self) -> (s: &str)
        ensures
            s@ == self.0@,
    {
        self.0.as_str()
    }
}

#[derive(Clone, Debug, PartialEq, Eq, Hash)]
pub struct Event(pub String);

impl Event {
    pub fn new(s: &str) -> (r: Self)
        ensures
            r.0@ == s@,
    {
        Event(to_owned_string(s))
    }
}

/// A row of the transition table: (from, event, to, guarded).
pub type Row = (Seq<char>, Seq<char>, Seq<char>, bool);

/// A taken transition: (from, event, to).
pub type Step = (Seq<char>, Seq<char>, Seq<char>);

/// The index of the first row leaving `from` on `ev`.
pub open spec fn find_rule(table: Seq<Row>, from: Seq<char>, ev: Seq<char>) -> Option<int>
    decreases table.len(),
{
    if table.len() == 0 {
        None
    } else {
        match find_rule(table.drop_last(), from, ev) {
            Some(i) => Some(i),
            None => if table.last().0 == from && table.last().1 == ev { Some(table.len() - 1) } else { None },
        }
    }
}

/// The events of the rows leaving `from`, in table order.
pub open spec fn events_from(table: Seq<Row>, from: Seq<char>) -> Seq<Seq<char>>
    decreases table.len(),
{
    if table.len() == 0 {
        seq![]
    } else {
        let r = events_from(table.drop_last(), from);
        if table.last().0 == from { r.push(table.last().1) } else { r }
    }
}

/// Each step starts where the one before ended, and the last ends in `current`.
pub open spec fn log_chained(log: Seq<Step>, current: Seq<char>) -> bool {
    &&& forall|i: int| 0 <= i < log.len() - 1 ==> #[trigger] log[i].2 == log[i + 1].0
    &&& log.len() > 0 ==> log.last().2 == current
}

/// Whether `s` is the source or target of the row.
pub open spec fn row_mentions(row: Row, s: Seq<char>) -> bool {
    row.0 == s || row.2 == s
}

/// Whether `s` is the source or target of some row.
pub open spec fn mentions_state(table: Seq<Row>, s: Seq<char>) -> bool {
    exists|i: int| 0 <= i < table.len() && #[trigger] row_mentions(table[i], s)
}

proof fn lemma_find_rule(table: Seq<Row>, from: Seq<char>, ev: Seq<char>, i: int)
    requires
        0 <= i <= table.len(),
        forall|j: int| 0 <= j < i ==> !(table[j].0 == from && table[j].1 == ev),
        i < table.len() ==> table[i].0 == from && table[i].1 == ev,
    ensures
        find_rule(table, from, ev) == if i < table.len() { Some(i) } else { None::<int> },
    decreases table.len(),
{
    if table.len() > 0 {
        let t = table.drop_last();
        if i < table.len() - 1 {
            assert forall|j: int| 0 <= j < i implies !(t[j].0 == from && t[j].1 == ev) by {
                assert(t[j] == table[j]);
            }
            assert(t[i] == table[i]);
            lemma_find_rule(t, from, ev, i);
        } else {
            assert forall|j: int| 0 <= j < table.len() - 1 implies !(t[j].0 == from && t[j].1 == ev) by {
                assert(t[j] == table[j]);
            }
            lemma_find_rule(t, from, ev, table.len() - 1);
        }
    }
}

proof fn lemma_find_rule_some(table: Seq<Row>, from: Seq<char>, ev: Seq<char>)
    ensures
        match find_rule(table, from, ev) {
            Some(i) => 0 <= i < table.len() && table[i].0 == from && table[i].1 == ev,
            None => forall|j: int| 0 <= j < table.len() ==> !(table[j].0 == from && table[j].1 == ev),
        },
    decreases table.len(),
{
    if table.len() > 0 {
        let t = table.drop_last();
        lemma_find_rule_some(t, from, ev);
        match find_rule(t, from, ev) {
            Some(i) => {
                assert(t[i] == table[i]);
            },
            None => {
                assert forall|j: int| 0 <= j < table.len() - 1 implies !(table[j].0 == from && table[j].1 == ev) by {
                    assert(t[j] == table[j]);
                }
            },
        }
    }
}

/// An event is accepted by the table exactly when some row leaves the current
/// state on it; the row taken is then the first such row.
pub proof fn law_can_transition_iff_rule(table: Seq<Row>, from: Seq<char>, ev: Seq<char>)
    ensures
        (exists|i: int| 0 <= i < table.len() && #[trigger] table[i].0 == from && table[i].1 == ev)
            <==> find_rule(table, from, ev) is Some,
{
    lemma_find_rule_some(table, from, ev);
    if let Some(i) = find_rule(table, from, ev) {
        assert(table[i].0 == from && table[i].1 == ev);
    }
}

/// The valid events from a state are exactly the events the machine accepts
/// there: an event is listed when, and only when, some row leaves the state on it.
pub proof fn law_valid_events_iff_accepted(table: Seq<Row>, from: Seq<char>, ev: Seq<char>)
    ensures
        events_from(table, from).contains(ev)
            <==> (exists|i: int| 0 <= i < table.len() && #[trigger] table[i].0 == from && table[i].1 == ev),
    decreases table.len(),
{
    if table.len() > 0 {
        let t = table.drop_last();
        law_valid_events_iff_accepted(t, from, ev);
        let r = events_from(t, from);
        let last = table.len() - 1;
        if exists|i: int| 0 <= i < t.len() && #[trigger] t[i].0 == from && t[i].1 == ev {
            let i = choose|i: int| 0 <= i < t.len() && #[trigger] t[i].0 == from && t[i].1 == ev;
            assert(table[i] == t[i]);
        }
        if exists|i: int| 0 <= i < table.len() && #[trigger] table[i].0 == from && table[i].1 == ev {
            let i = choose|i: int| 0 <= i < table.len() && #[trigger] table[i].0 == from && table[i].1 == ev;
            if i < last {
                assert(t[i] == table[i]);
            }
        }
        if table.last().0 == from {
            let p = r.push(table.last().1);
            assert(p[r.len() as int] == table.last().1);
            if r.contains(ev) {
                let j = choose|j: int| 0 <= j < r.len() && r[j] == ev;
                assert(p[j] == ev);
            }
            if p.contains(ev) {
                let j = choose|j: int| 0 <= j < p.len() && p[j] == ev;
                if j < r.len() {
                    assert(r[j] == ev);
                }
            }
        }
    }
}

pub open spec fn step_view(h: (State, Event, State)) -> Step {
    (h.0.0@, h.1.0@, h.2.0@)
}

/// A typed state machine. Defines valid state transitions.
pub struct StateMachine {
    pub name: String,
    pub initial: State,
    current: State,
    transitions: Vec<Transition>,
    history: Vec<(State, Event, State)>,
}

impl StateMachine {
    /// The name of the current state.
    pub closed spec fn current_spec(&self) -> Seq<char> {
        self.current.0@
    }

    /// The transition table, in the order the transitions were added.
    pub closed spec fn table(&self) -> Seq<Row> {
        self.transitions@.map_values(|t: Transition| transition_view(t))
    }

    /// The transitions taken since creation or the last reset, oldest first.
    pub closed spec fn log(&self) -> Seq<Step> {
        self.history@.map_values(|h: (State, Event, State)| step_view(h))
    }

    /// The machine's name.
    pub closed spec fn name_spec(&self) -> Seq<char> {
        self.name@
    }

    /// The name of the state the machine starts and resets in.
    pub closed spec fn initial_spec(&self) -> Seq<char> {
        self.initial.0@
    }

    /// Whether the history is a chain of steps ending in the current state.
    pub open spec fn chained(&self) -> bool {
        log_chained(self.log(), self.current_spec())
    }

    /// The machine is as before but for the current state and the history.
    pub open spec fn same_setup(&self, other: &Self) -> bool {
        &&& self.name_spec() == other.name_spec()
        &&& self.initial_spec() == other.initial_spec()
        &&& self.table() == other.table()
    }

    pub fn new(name: &str, initial: State) -> (m: Self)
        ensures
            m.name_spec() == name@,
            m.initial_spec() == initial.0@,
            m.current_spec() == initial.0@,
            m.table().len() == 0,
            m.log().len() == 0,
            m.chained(),
    {
        let s = State(initial.0.clone());
        let m = StateMachine {
            name: to_owned_string(name),
            initial,
            current: s,
            transitions: Vec::new(),
            history: Vec::new(),
        };
        proof {
            assert(m.log().len() == 0);
        }
        m
    }

    pub fn add_transition(self, t: Transition) -> (m: Self)
        ensures
            m.name_spec() == self.name_spec(),
            m.initial_spec() == self.initial_spec(),
            m.current_spec() == self.current_spec(),
            m.table() == self.table().push(transition_view(t)),
            m.log() == self.log(),
    {
        let mut m = self;
        let ghost before = m.transitions@;
        m.transitions.push(t);
        proof {
            assert(m.transitions@.map_values(|t: Transition| transition_view(t))
                =~= before.map_values(|t: Transition| transition_view(t)).push(transition_view(t)));
        }
        m
    }

    pub fn current(&self) -> (s: &State)
        ensures
            s.0@ == self.current_spec(),
    {
        &self.current
    }

    pub fn is_in(&self, state: &State) -> (b: bool)
        ensures
            b == (self.current_spec() == state.0@),
    {
        str_eq(self.current.0.as_str(), state.0.as_str())
    }

    /// The index of the first transition leaving the current state on `event`.
    fn find(&self, event: &Event) -> (r: Option<usize>)
        ensures
            match find_rule(self.table(), self.current_spec(), event.0@) {
                Some(i) => r matches Some(j) && j == i,
                None => r is None,
            },
            r matches Some(i) ==> i < self.transitions@.len() && i < self.table().len(),
    {
        let ghost tb = self.table();
        proof {
            lemma_find_rule_some(tb, self.current_spec(), event.0@);
        }
        let mut i: usize = 0;
        while i < self.transitions.len()
            invariant
                i <= self.transitions@.len(),
                tb == self.table(),
                forall|j: int| 0 <= j < i ==> !(tb[j].0 == self.current_spec() && tb[j].1 == event.0@),
            decreases self.transitions@.len() - i,
        {
            let t = &self.transitions[i];
            if str_eq(t.from.0.as_str(), self.current.0.as_str()) && str_eq(t.event.0.as_str(), event.0.as_str()) {
                proof {
                    lemma_find_rule(tb, self.current_spec(), event.0@, i as int);
                }
                return Some(i);
            }
            i = i + 1;
        }
        proof {
            lemma_find_rule(tb, self.current_spec(), event.0@, i as int);
        }
        None
    }

    pub fn can_transition(&self, event: &Event) -> (b: bool)
        ensures
            b == exists|i: int| 0 <= i < self.table().len() && #[trigger] self.table()[i].0 == self.current_spec()
                && self.table()[i].1 == event.0@,
    {
        proof {
            law_can_transition_iff_rule(self.table(), self.current_spec(), event.0@);
        }
        self.find(event).is_some()
    }

    /// Takes the transition for `event`, given what its guard (if any) said:
    /// with no row for the event the machine refuses it; with a guarded row and
    /// `guard_passed` false it reports the failed guard; otherwise it moves to
    /// the row's target and records the step. A refused event changes nothing.
    pub fn transition_with(&mut self, event: &Event, guard_passed: bool) -> (r: Result<&State, StateError>)
        ensures
            final(self).same_setup(old(self)),
            old(self).chained() ==> final(self).chained(),
            match find_rule(old(self).table(), old(self).current_spec(), event.0@) {
                None => {
                    &&& r matches Err(StateError::InvalidTransition { from, event: e })
                        && from@ == old(self).current_spec() && e@ == event.0@
                    &&& final(self).current_spec() == old(self).current_spec()
                    &&& final(self).log() == old(self).log()
                },
                Some(i) => if old(self).table()[i].3 && !guard_passed {
                    &&& r matches Err(StateError::GuardFailed { state }) && state@ == old(self).current_spec()
                    &&& final(self).current_spec() == old(self).current_spec()
                    &&& final(self).log() == old(self).log()
                } else {
                    &&& r matches Ok(s) && s.0@ == old(self).table()[i].2
                    &&& final(self).current_spec() == old(self).table()[i].2
                    &&& final(self).log() == old(self).log().push(
                        (old(self).current_spec(), event.0@, old(self).table()[i].2),
                    )
                },
            },
    {
        let found = self.find(event);
        let i = match found {
            Some(i) => i,
            None => {
                return Err(StateError::InvalidTransition { from: self.current.0.clone(), event: event.0.clone() });
            },
        };
        let guarded = self.transitions[i].guard.is_some();
        if guarded && !guard_passed {
            return Err(StateError::GuardFailed { state: self.current.0.clone() });
        }
        let ghost old_log = self.log();
        let ghost old_cur = self.current_spec();
        let to = State(self.transitions[i].to.0.clone());
        let prev = State(self.current.0.clone());
        let to2 = State(self.transitions[i].to.0.clone());
        let ghost before = self.history@;
        self.history.push((prev, Event(event.0.clone()), to2));
        self.current = to;
        proof {
            assert(self.log() =~= old_log.push((old_cur, event.0@, self.table()[i as int].2)));
            let l = self.log();
            if log_chained(old_log, old_cur) {
                assert forall|k: int| 0 <= k < l.len() - 1 implies #[trigger] l[k].2 == l[k + 1].0 by {
                    if k < l.len() - 2 {
                        assert(l[k] == old_log[k]);
                        assert(l[k + 1] == old_log[k + 1]);
                    } else {
                        assert(l[k] == old_log.last());
                    }
                }
            }
        }
        Ok(&self.current)
    }

    /// Takes the transition for `event`, asking its guard if it has one.
    /// Whether a guard passes is up to the guard.
    pub fn transition(&mut self, event: &Event) -> (r: Result<&State, StateError>)
        ensures
            final(self).same_setup(old(self)),
            old(self).chained() ==> final(self).chained(),
            match find_rule(old(self).table(), old(self).current_spec(), event.0@) {
                None => {
                    &&& r matches Err(StateError::InvalidTransition { from, event: e })
                        && from@ == old(self).current_spec() && e@ == event.0@
                    &&& final(self).current_spec() == old(self).current_spec()
                    &&& final(self).log() == old(self).log()
                },
                Some(i) => {
                    ||| {
                        &&& old(self).table()[i].3
                        &&& r matches Err(StateError::GuardFailed { state }) && state@ == old(self).current_spec()
                        &&& final(self).current_spec() == old(self).current_spec()
                        &&& final(self).log() == old(self).log()
                    }
                    ||| {
                        &&& r matches Ok(s) && s.0@ == old(self).table()[i].2
                        &&& final(self).current_spec() == old(self).table()[i].2
                        &&& final(self).log() == old(self).log().push(
                            (old(self).current_spec(), event.0@, old(self).table()[i].2),
                        )
                    }
                },
            },
    {
        let passed = match self.find(event) {
            Some(i) => match &self.transitions[i].guard {
                Some(g) => g.check(),
                None => true,
            },
            None => true,
        };
        self.transition_with(event, passed)
    }

    pub fn reset(&mut self)
        ensures
            final(self).same_setup(old(self)),
            final(self).current_spec() == old(self).initial_spec(),
            final(self).log().len() == 0,
            final(self).chained(),
    {
        self.current = State(self.initial.0.clone());
        self.history = Vec::new();
        proof {
            assert(self.log().len() == 0);
        }
    }

    pub fn history(&self) -> (h: &[(State, Event, State)])
        ensures
            h@.map_values(|s: (State, Event, State)| step_view(s)) == self.log(),
    {
        self.history.as_slice()
    }

    /// All valid events from the current state, in table order.
    pub fn valid_events(&self) -> (v: Vec<&Event>)
        ensures
            v@.map_values(|e: &Event| e.0@) == events_from(self.table(), self.current_spec()),
    {
        let ghost tb = self.table();
        let mut v: Vec<&Event> = Vec::new();
        let mut i: usize = 0;
        while i < self.transitions.len()
            invariant
                i <= self.transitions@.len(),
                tb == self.table(),
                v@.map_values(|e: &Event| e.0@) == events_from(tb.take(i as int), self.current_spec()),
            decreases self.transitions@.len() - i,
        {
            proof {
                assert(tb.take(i + 1).drop_last() == tb.take(i as int));
                assert(tb.take(i + 1).last() == tb[i as int]);
            }
            let t = &self.transitions[i];
            if str_eq(t.from.0.as_str(), self.current.0.as_str()) {
                let ghost before = v@;
                v.push(&t.event);
                proof {
                    assert(v@.map_values(|e: &Event| e.0@) =~= before.map_values(|e: &Event| e.0@).push(tb[i as int].1));
                }
            }
            i = i + 1;
        }
        proof {
            assert(tb.take(tb.len() as int) == tb);
        }
        v
    }

    /// Consistency issues of the table: the initial state must appear in it
    /// unless it is empty.
    pub fn validate(&self) -> (issues: Vec<String>)
        ensures
            issues@.len() <= 1,
            issues@.len() == 1 <==> (self.table().len() > 0 && !mentions_state(self.table(), self.initial_spec())),
            issues@.len() == 1 ==> issues@[0]@ == "Initial state '"@ + self.initial_spec()
                + "' never appears in transitions"@,
    {
        let ghost tb = self.table();
        let mut seen = false;
        let mut i: usize = 0;
        while i < self.transitions.len() && !seen
            invariant
                i <= self.transitions@.len(),
                tb == self.table(),
                seen ==> mentions_state(tb, self.initial.0@),
                !seen ==> forall|j: int| 0 <= j < i ==> !row_mentions(tb[j], self.initial.0@),
            decreases self.transitions@.len() - i + (if seen { 0int } else { 1int }),
        {
            let t = &self.transitions[i];
            if str_eq(t.from.0.as_str(), self.initial.0.as_str()) || str_eq(t.to.0.as_str(), self.initial.0.as_str()) {
                proof {
                    assert(row_mentions(tb[i as int], self.initial.0@));
                }
                seen = true;
            } else {
                i = i + 1;
            }
        }
        let mut issues: Vec<String> = Vec::new();
        if !seen && self.transitions.len() > 0 {
            let mut s = string_with_capacity(0);
            push_str(&mut s, "Initial state '");
            push_str(&mut s, self.initial.0.as_str());
            push_str(&mut s, "' never appears in transitions");
            issues.push(s);
        }
        issues
    }
}

/// Fluent builder for state machines.
pub struct MachineBuilder {
    name: String,
    initial: Option<State>,
    transitions: Vec<Transition>,
}

impl MachineBuilder {
    pub closed spec fn name_spec(&self) -> Seq<char> {
        self.name@
    }

    /// The initial state chosen so far.
    pub closed spec fn initial_spec(&self) -> Option<Seq<char>> {
        match self.initial {
            Some(s) => Some(s.0@),
            None => None,
        }
    }

    /// The transitions added so far, in order.
    pub closed spec fn table(&self) -> Seq<Row> {
        self.transitions@.map_values(|t: Transition| transition_view(t))
    }

    pub fn new(name: &str) -> (b: Self)
        ensures
            b.name_spec() == name@,
            b.initial_spec() is None,
            b.table().len() == 0,
    {
        MachineBuilder { name: to_owned_string(name), initial: None, transitions: Vec::new() }
    }

    pub fn initial(self, s: &str) -> (b: Self)
        ensures
            b.name_spec() == self.name_spec(),
            b.initial_spec() == Some(s@),
            b.table() == self.table(),
    {
        MachineBuilder { initial: Some(State::new(s)), ..self }
    }

    pub fn on(self, from: &str, event: &str, to: &str) -> (b: Self)
        ensures
            b.name_spec() == self.name_spec(),
            b.initial_spec() == self.initial_spec(),
            b.table() == self.table().push((from@, event@, to@, false)),
    {
        let mut b = self;
        let ghost before = b.transitions@;
        b.transitions.push(Transition::new(from, event, to));
        proof {
            assert(b.transitions@.map_values(|t: Transition| transition_view(t))
                =~= before.map_values(|t: Transition| transition_view(t)).push((from@, event@, to@, false)));
        }
        b
    }

    /// The machine, in its initial state with the transitions added. An initial
    /// state must have been chosen.
    pub fn build(self) -> (m: StateMachine)
        requires
            self.initial_spec() is Some,
        ensures
            m.name_spec() == self.name_spec(),
            m.initial_spec() == self.initial_spec()->0,
            m.current_spec() == self.initial_spec()->0,
            m.table() == self.table(),
            m.log().len() == 0,
            m.chained(),
    {
        let MachineBuilder { name, initial, transitions } = self;
        let initial = match initial {
            Some(s) => s,
            None => State(String::new()),
        };
        let mut m = StateMachine::new(name.as_str(), initial);
        let ghost tb = transitions@.map_values(|t: Transition| transition_view(t));
        let mut ts = transitions;
        let total = ts.len();
        let mut taken: usize = 0;
        while ts.len() > 0
            invariant
                ts@.len() + taken == total,
                total == tb.len(),
                m.name_spec() == self.name_spec(),
                m.initial_spec() == self.initial_spec()->0,
                m.current_spec() == self.initial_spec()->0,
                m.log().len() == 0,
                ts@.len() + taken == tb.len(),
                m.table() == tb.take(taken as int),
                forall|k: int| 0 <= k < ts@.len() ==> transition_view(#[trigger] ts@[k]) == tb[taken + k],
            decreases ts@.len(),
        {
            let ghost before = ts@;
            let t = ts.remove(0);
            proof {
                assert(transition_view(t) == tb[taken as int]);
                assert(tb.take(taken + 1) == tb.take(taken as int).push(tb[taken as int]));
                assert forall|k: int| 0 <= k < ts@.len() implies transition_view(#[trigger] ts@[k]) == tb[taken + 1 + k] by {
                    assert(ts@[k] == before[k + 1]);
                }
            }
            m = m.add_transition(t);
            taken = taken + 1;
        }
        proof {
            assert(tb.take(tb.len() as int) == tb);
        }
        m
    }
}

} // verus!
