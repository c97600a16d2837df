//! A harness that runs named actions on test fields and checks their results.
use vstd::prelude::*;
use crate::strmap::StrMap;
use crate::testing::debug::{debug_opt_str, debug_option, debug_str, debug_text};
use crate::text::{contains_str, push_str, seq_contains, str_eq, string_with_capacity, to_owned_string};

verus! {

pub struct ActionTestResult {
    pub ok: bool,
    pub output_kind: String,
    pub message: Option<String>,
    pub redirect_url: Option<String>,
    pub errors: StrMap,
}

/// The text of an optional string.
pub open spec fn opt_text(o: Option<String>) -> Option<Seq<char>> {
    match o {
        Some(s) => Some(s@),
        None => None,
    }
}

impl ActionTestResult {
    pub fn assert_ok(&self) -> (r: Result<(), String>)
        ensures
            r is Ok <==> self.ok,
            r matches Err(m) ==> m@ == "Action failed: "@ + debug_opt_str(opt_text(self.message)),
    {
        if self.ok {
            Ok(())
        } else {
            let mut m = string_with_capacity(0);
            push_str(&mut m, "Action failed: ");
            let d = debug_option(&self.message);
            push_str(&mut m, d.as_str());
            Err(m)
        }
    }

    pub fn assert_redirect_to(&self, url: &str) -> (r: Result<(), String>)
        ensures
            match opt_text(self.redirect_url) {
                Some(u) => if u == url@ {
                    r is Ok
                } else {
                    r matches Err(m) && m@ == "Expected redirect to "@ + debug_str(url@) + ", got "@ + debug_str(u)
                },
                None => r matches Err(m) && m@ == "No redirect in action result"@,
            },
    {
        match &self.redirect_url {
            Some(u) => {
                if str_eq(u.as_str(), url) {
                    Ok(())
                } else {
                    let mut m = string_with_capacity(0);
                    push_str(&mut m, "Expected redirect to ");
                    let a = debug_text(url);
                    push_str(&mut m, a.as_str());
                    push_str(&mut m, ", got ");
                    let b = debug_text(u.as_str());
                    push_str(&mut m, b.as_str());
                    Err(m)
                }
            },
            None => Err(to_owned_string("No redirect in action result")),
        }
    }

    pub fn assert_field_error(&self, field: &str, contains: &str) -> (r: Result<(), String>)
        ensures
            match self.errors.get_spec(field@) {
                Some(msg) => if seq_contains(msg, contains@) {
                    r is Ok
                } else {
                    r matches Err(m) && m@ == "Field "@ + debug_str(field@) + " error "@ + debug_str(msg)
                        + " does not contain "@ + debug_str(contains@)
                },
                None => r matches Err(m) && m@ == "No error for field "@ + debug_str(field@),
            },
    {
        match self.errors.get(field) {
            Some(msg) => {
                if contains_str(msg, contains) {
                    Ok(())
                } else {
                    let mut m = string_with_capacity(0);
                    push_str(&mut m, "Field ");
                    let a = debug_text(field);
                    push_str(&mut m, a.as_str());
                    push_str(&mut m, " error ");
                    let b = debug_text(msg);
                    push_str(&mut m, b.as_str());
                    push_str(&mut m, " does not contain ");
                    let c = debug_text(contains);
                    push_str(&mut m, c.as_str());
                    Err(m)
                }
            },
            None => {
                let mut m = string_with_capacity(0);
                push_str(&mut m, "No error for field ");
                let a = debug_text(field);
                push_str(&mut m, a.as_str());
                Err(m)
            },
        }
    }
}

/// Named test actions, each a closure from the submitted fields to a result;
/// registering a name again replaces its handler.
pub struct ActionTestHarness<H: Fn(&StrMap) -> ActionTestResult> {
    actions: Vec<(String, H)>,
}

/// The index of the action named `name`.
pub open spec fn action_index(names: Seq<Seq<char>>, name: Seq<char>) -> Option<int>
    decreases names.len(),
{
    if names.len() == 0 {
        None
    } else {
        match action_index(names.drop_last(), name) {
            Some(i) => Some(i),
            None => if names.last() == name { Some(names.len() - 1) } else { None },
        }
    }
}

proof fn lemma_action_index(names: Seq<Seq<char>>, name: Seq<char>, i: int)
    requires
        0 <= i <= names.len(),
        forall|j: int| 0 <= j < i ==> names[j] != name,
        i < names.len() ==> names[i] == name,
    ensures
        action_index(names, name) == if i < names.len() { Some(i) } else { None::<int> },
    decreases names.len(),
{
    if names.len() > 0 {
        let t = names.drop_last();
        let k = if i < names.len() - 1 { i } else { names.len() - 1 };
        assert forall|j: int| 0 <= j < k implies t[j] != name by {
            assert(t[j] == names[j]);
        }
        if i < names.len() - 1 {
            assert(t[i] == names[i]);
        }
        lemma_action_index(t, name, k);
    }
}

impl<H: Fn(&StrMap) -> ActionTestResult> ActionTestHarness<H> {
    /// The registered action names.
    pub closed spec fn names(&self) -> Seq<Seq<char>> {
        self.actions@.map_values(|a: (String, H)| a.0@)
    }

    /// The registered handlers, in the same order as the names.
    pub closed spec fn handlers(&self) -> Seq<H> {
        self.actions@.map_values(|a: (String, H)| a.1)
    }

    /// Every handler takes any fields.
    #[verifier::type_invariant]
    spec fn callable(&self) -> bool {
        forall|i: int, f: StrMap| 0 <= i < self.actions@.len() ==> #[trigger] call_requires(self.actions@[i].1, (&f,))
    }

    pub fn new() -> (h: Self)
        ensures
            h.names().len() == 0,
            h.handlers().len() == 0,
    {
        let h = ActionTestHarness { actions: Vec::new() };
        proof {
            assert(h.names() =~= Seq::<Seq<char>>::empty());
            assert(h.handlers() =~= Seq::<H>::empty());
        }
        h
    }

    fn find(&self, name: &str) -> (r: Option<usize>)
        ensures
            match action_index(self.names(), name@) {
                Some(i) => r matches Some(j) && j == i && i < self.actions@.len(),
                None => r is None,
            },
            r matches Some(j) ==> j < self.actions@.len() && self.names()[j as int] == name@,
    {
        let ghost ns = self.names();
        let mut i: usize = 0;
        while i < self.actions.len()
            invariant
                i <= self.actions@.len(),
                ns == self.names(),
                forall|j: int| 0 <= j < i ==> ns[j] != name@,
            decreases self.actions@.len() - i,
        {
            if str_eq(self.actions[i].0.as_str(), name) {
                proof {
                    lemma_action_index(ns, name@, i as int);
                }
                return Some(i);
            }
            i = i + 1;
        }
        proof {
            lemma_action_index(ns, name@, i as int);
        }
        None
    }

    /// Registers `handler` under `name`, replacing an action of that name.
    pub fn register(&mut self, name: &str, handler: H)
        requires
            forall|f: StrMap| call_requires(handler, (&f,)),
        ensures
            action_index(old(self).names(), name@) is Some ==> final(self).names() == old(self).names(),
            action_index(old(self).names(), name@) is None ==> final(self).names() == old(self).names().push(name@),
            final(self).handlers() == match action_index(old(self).names(), name@) {
                Some(i) => old(self).handlers().update(i, handler),
                None => old(self).handlers().push(handler),
            },
    {
        proof {
            use_type_invariant(&*self);
        }
        let ghost before = self.actions@;
        let ghost hv = handler;
        let found = self.find(name);
        let mut actions: Vec<(String, H)> = Vec::new();
        std::mem::swap(&mut actions, &mut self.actions);
        match found {
            Some(i) => {
                let n = to_owned_string(name);
                let ghost nv = n@;
                actions.set(i, (n, handler));
                proof {
                    assert(nv == before[i as int].0@);
                    assert(actions@.map_values(|a: (String, H)| a.0@) =~= before.map_values(|a: (String, H)| a.0@));
                    assert(actions@.map_values(|a: (String, H)| a.1)
                        =~= before.map_values(|a: (String, H)| a.1).update(i as int, hv));
                    assert forall|k: int, f: StrMap| 0 <= k < actions@.len() implies #[trigger] call_requires(actions@[k].1, (&f,)) by {
                        if k != i {
                            assert(actions@[k] == before[k]);
                        }
                    }
                }
            },
            None => {
                actions.push((to_owned_string(name), handler));
                proof {
                    assert(actions@.map_values(|a: (String, H)| a.0@) =~= before.map_values(|a: (String, H)| a.0@).push(name@));
                    assert(actions@.map_values(|a: (String, H)| a.1) =~= before.map_values(|a: (String, H)| a.1).push(hv));
                    assert forall|k: int, f: StrMap| 0 <= k < actions@.len() implies #[trigger] call_requires(actions@[k].1, (&f,)) by {
                        if k < before.len() {
                            assert(actions@[k] == before[k]);
                        }
                    }
                }
            },
        }
        self.actions = actions;
    }

    /// Runs the action named `name` on `fields`: a registered name's handler is
    /// called on the fields and its result returned; an unknown name gives a
    /// failed result of kind `error`.
    pub fn run(&self, name: &str, fields: StrMap) -> (r: ActionTestResult)
        ensures
            match action_index(self.names(), name@) {
                Some(i) => call_ensures(self.handlers()[i], (&fields,), r),
                None => {
                    &&& !r.ok
                    &&& r.output_kind@ == "error"@
                    &&& opt_text(r.message) == Some("Unknown action: "@ + name@)
                    &&& r.redirect_url is None
                    &&& r.errors.keys().len() == 0
                },
            },
    {
        proof {
            use_type_invariant(self);
        }
        match self.find(name) {
            Some(i) => {
                let h = &self.actions[i].1;
                assert(call_requires(self.actions@[i as int].1, (&fields,)));
                h(&fields)
            },
            None => {
                let mut m = string_with_capacity(0);
                push_str(&mut m, "Unknown action: ");
                push_str(&mut m, name);
                ActionTestResult {
                    ok: false,
                    output_kind: to_owned_string("error"),
                    message: Some(m),
                    redirect_url: None,
                    errors: StrMap::new(),
                }
            },
        }
    }
}

} // verus!
