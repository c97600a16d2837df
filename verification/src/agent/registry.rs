//! The registry of agents and of the providers they run on, each keyed by id.
use vstd::prelude::*;
use crate::agent::provider::{ProviderKind, RegisteredAgent};
use crate::text::{str_eq, to_owned_string};

verus! {

/// No id occurs twice.
pub open spec fn ids_unique(ids: Seq<Seq<char>>) -> bool {
    forall|i: int, j: int| 0 <= i < j < ids.len() ==> ids[i] != ids[j]
}

/// The value stored under id `k`, when there is one.
pub open spec fn lookup_id<V>(ids: Seq<Seq<char>>, vals: Seq<V>, k: Seq<char>) -> Option<V> {
    if exists|i: int| 0 <= i < ids.len() && ids[i] == k {
        Some(vals[choose|i: int| 0 <= i < ids.len() && ids[i] == k])
    } else {
        None
    }
}

proof fn lemma_lookup_at<V>(ids: Seq<Seq<char>>, vals: Seq<V>, i: int)
    requires
        ids_unique(ids),
        0 <= i < ids.len(),
    ensures
        lookup_id(ids, vals, ids[i]) == Some(vals[i]),
{
    let k = ids[i];
    assert(0 <= i < ids.len() && ids[i] == k);
    let j = choose|j: int| 0 <= j < ids.len() && ids[j] == k;
    assert(j == i);
}

proof fn lemma_lookup_absent<V>(ids: Seq<Seq<char>>, vals: Seq<V>, k: Seq<char>)
    requires
        !ids.contains(k),
    ensures
        lookup_id(ids, vals, k) is None,
{
    assert forall|i: int| !(0 <= i < ids.len() && ids[i] == k) by {
        if 0 <= i < ids.len() && ids[i] == k {
            assert(ids.contains(k));
        }
    }
}

proof fn lemma_set_at<V>(ids: Seq<Seq<char>>, vals: Seq<V>, i: int, v: V)
    requires
        ids_unique(ids),
        vals.len() == ids.len(),
        0 <= i < ids.len(),
    ensures
        forall|k: Seq<char>| #[trigger] lookup_id(ids, vals.update(i, v), k) == if k == ids[i] {
            Some(v)
        } else {
            lookup_id(ids, vals, k)
        },
{
    let nv = vals.update(i, v);
    assert forall|k: Seq<char>| #[trigger] lookup_id(ids, nv, k) == if k == ids[i] {
        Some(v)
    } else {
        lookup_id(ids, vals, k)
    } by {
        if k == ids[i] {
            lemma_lookup_at(ids, nv, i);
        } else if ids.contains(k) {
            let j = choose|j: int| 0 <= j < ids.len() && ids[j] == k;
            lemma_lookup_at(ids, nv, j);
            lemma_lookup_at(ids, vals, j);
        } else {
            lemma_lookup_absent(ids, nv, k);
            lemma_lookup_absent(ids, vals, k);
        }
    }
}

proof fn lemma_push_new<V>(ids: Seq<Seq<char>>, vals: Seq<V>, k0: Seq<char>, v: V)
    requires
        ids_unique(ids),
        vals.len() == ids.len(),
        !ids.contains(k0),
    ensures
        ids_unique(ids.push(k0)),
        forall|k: Seq<char>| #[trigger] lookup_id(ids.push(k0), vals.push(v), k) == if k == k0 {
            Some(v)
        } else {
            lookup_id(ids, vals, k)
        },
{
    let ids1 = ids.push(k0);
    let vals1 = vals.push(v);
    assert forall|i: int, j: int| 0 <= i < j < ids1.len() implies ids1[i] != ids1[j] by {
        if j == ids.len() {
            assert(ids1[i] == ids[i]);
            assert(ids.contains(ids[i]));
        } else {
            assert(ids1[i] == ids[i] && ids1[j] == ids[j]);
        }
    }
    assert forall|k: Seq<char>| #[trigger] lookup_id(ids1, vals1, k) == if k == k0 {
        Some(v)
    } else {
        lookup_id(ids, vals, k)
    } by {
        if k == k0 {
            lemma_lookup_at(ids1, vals1, ids.len() as int);
        } else if ids.contains(k) {
            let j = choose|j: int| 0 <= j < ids.len() && ids[j] == k;
            assert(ids1[j] == ids[j] && vals1[j] == vals[j]);
            lemma_lookup_at(ids1, vals1, j);
            lemma_lookup_at(ids, vals, j);
        } else {
            assert(!ids1.contains(k)) by {
                if ids1.contains(k) {
                    let j = choose|j: int| 0 <= j < ids1.len() && ids1[j] == k;
                    if j < ids.len() {
                        assert(ids[j] == k);
                    }
                }
            }
            lemma_lookup_absent(ids1, vals1, k);
            lemma_lookup_absent(ids, vals, k);
        }
    }
}

/// An agent as plain values: id, name, description, provider kind,
/// capabilities and whether it is enabled.
pub type AgentView = (Seq<char>, Seq<char>, Seq<char>, ProviderKind, Seq<Seq<char>>, bool);

pub open spec fn agent_view(a: RegisteredAgent) -> AgentView {
    (a.id@, a.name@, a.description@, a.provider_kind, a.capabilities@.map_values(|c: String| c@), a.enabled)
}

/// A copy of an agent with every field equal.
fn copy_agent(a: &RegisteredAgent) -> (r: RegisteredAgent)
    ensures
        agent_view(r) == agent_view(*a),
{
    let capabilities = a.capabilities.clone();
    assert(capabilities@ =~= a.capabilities@);
    RegisteredAgent {
        id: a.id.clone(),
        name: a.name.clone(),
        description: a.description.clone(),
        provider_kind: a.provider_kind,
        capabilities,
        enabled: a.enabled,
    }
}

/// Agents and providers by id. Registering an id again replaces what it held.
pub struct AgentRegistry<P> {
    agents: Vec<RegisteredAgent>,
    providers: Vec<(String, P)>,
}

impl<P> AgentRegistry<P> {
    /// The registered agents, in order of first registration of their ids.
    pub closed spec fn agents_spec(&self) -> Seq<AgentView> {
        self.agents@.map_values(|a: RegisteredAgent| agent_view(a))
    }

    /// The ids of the registered agents, in the same order.
    pub open spec fn agent_ids(&self) -> Seq<Seq<char>> {
        self.agents_spec().map_values(|a: AgentView| a.0)
    }

    /// The ids of the registered providers, in order of first registration.
    pub closed spec fn provider_ids(&self) -> Seq<Seq<char>> {
        self.providers@.map_values(|p: (String, P)| p.0@)
    }

    /// The registered providers, in the same order.
    pub closed spec fn providers_spec(&self) -> Seq<P> {
        self.providers@.map_values(|p: (String, P)| p.1)
    }

    /// The agent registered under `id`.
    pub open spec fn agent(&self, id: Seq<char>) -> Option<AgentView> {
        lookup_id(self.agent_ids(), self.agents_spec(), id)
    }

    /// The provider registered under `id`.
    pub open spec fn provider(&self, id: Seq<char>) -> Option<P> {
        lookup_id(self.provider_ids(), self.providers_spec(), id)
    }

    #[verifier::type_invariant]
    spec fn unique(&self) -> bool {
        ids_unique(self.agent_ids()) && ids_unique(self.provider_ids())
    }

    pub fn new() -> (r: Self)
        ensures
            r.agents_spec().len() == 0,
            r.provider_ids().len() == 0,
            forall|k: Seq<char>| r.agent(k) is None && r.provider(k) is None,
    {
        AgentRegistry { agents: Vec::new(), providers: Vec::new() }
    }

    fn find_agent(&self, id: &str) -> (r: Option<usize>)
        ensures
            match r {
                Some(i) => i < self.agents_spec().len() && self.agent_ids()[i as int] == id@,
                None => !self.agent_ids().contains(id@),
            },
    {
        let mut i: usize = 0;
        while i < self.agents.len()
            invariant
                i <= self.agents@.len(),
                forall|j: int| 0 <= j < i ==> self.agent_ids()[j] != id@,
            decreases self.agents@.len() - i,
        {
            if str_eq(self.agents[i].id.as_str(), id) {
                return Some(i);
            }
            i = i + 1;
        }
        None
    }

    fn find_provider(&self, id: &str) -> (r: Option<usize>)
        ensures
            match r {
                Some(i) => i < self.provider_ids().len() && self.provider_ids()[i as int] == id@,
                None => !self.provider_ids().contains(id@),
            },
    {
        let mut i: usize = 0;
        while i < self.providers.len()
            invariant
                i <= self.providers@.len(),
                forall|j: int| 0 <= j < i ==> self.provider_ids()[j] != id@,
            decreases self.providers@.len() - i,
        {
            if str_eq(self.providers[i].0.as_str(), id) {
                return Some(i);
            }
            i = i + 1;
        }
        None
    }

    /// Registers `agent` under its id, replacing the agent registered there.
    pub fn register_agent(&mut self, agent: RegisteredAgent)
        ensures
            forall|k: Seq<char>| #[trigger] final(self).agent(k) == if k == agent.id@ {
                Some(agent_view(agent))
            } else {
                old(self).agent(k)
            },
            final(self).agent_ids() == if old(self).agent_ids().contains(agent.id@) {
                old(self).agent_ids()
            } else {
                old(self).agent_ids().push(agent.id@)
            },
            final(self).provider_ids() == old(self).provider_ids(),
            final(self).providers_spec() == old(self).providers_spec(),
    {
        proof {
            use_type_invariant(&*self);
        }
        let ghost ids0 = self.agent_ids();
        let ghost as0 = self.agents_spec();
        let ghost a = agent_view(agent);
        let found = self.find_agent(agent.id.as_str());
        let mut agents: Vec<RegisteredAgent> = Vec::new();
        std::mem::swap(&mut agents, &mut self.agents);
        match found {
            Some(i) => {
                agents.set(i, agent);
                proof {
                    assert(agents@.map_values(|x: RegisteredAgent| agent_view(x)) =~= as0.update(i as int, a));
                    assert(as0.update(i as int, a).map_values(|v: AgentView| v.0) =~= ids0);
                    lemma_set_at(ids0, as0, i as int, a);
                }
            },
            None => {
                agents.push(agent);
                proof {
                    assert(agents@.map_values(|x: RegisteredAgent| agent_view(x)) =~= as0.push(a));
                    assert(as0.push(a).map_values(|v: AgentView| v.0) =~= ids0.push(a.0));
                    lemma_push_new(ids0, as0, a.0, a);
                }
            },
        }
        self.agents = agents;
    }

    /// Registers `provider` under `id`, replacing the provider registered there.
    pub fn register_provider(&mut self, id: &str, provider: P)
        ensures
            forall|k: Seq<char>| #[trigger] final(self).provider(k) == if k == id@ {
                Some(provider)
            } else {
                old(self).provider(k)
            },
            final(self).provider_ids() == if old(self).provider_ids().contains(id@) {
                old(self).provider_ids()
            } else {
                old(self).provider_ids().push(id@)
            },
            final(self).agents_spec() == old(self).agents_spec(),
    {
        proof {
            use_type_invariant(&*self);
        }
        let ghost ids0 = self.provider_ids();
        let ghost ps0 = self.providers_spec();
        let ghost pv = provider;
        let found = self.find_provider(id);
        let mut providers: Vec<(String, P)> = Vec::new();
        std::mem::swap(&mut providers, &mut self.providers);
        match found {
            Some(i) => {
                providers.set(i, (to_owned_string(id), provider));
                proof {
                    assert(providers@.map_values(|p: (String, P)| p.0@) =~= ids0);
                    assert(providers@.map_values(|p: (String, P)| p.1) =~= ps0.update(i as int, pv));
                    lemma_set_at(ids0, ps0, i as int, pv);
                }
            },
            None => {
                providers.push((to_owned_string(id), provider));
                proof {
                    assert(providers@.map_values(|p: (String, P)| p.0@) =~= ids0.push(id@));
                    assert(providers@.map_values(|p: (String, P)| p.1) =~= ps0.push(pv));
                    lemma_push_new(ids0, ps0, id@, pv);
                }
            },
        }
        self.providers = providers;
    }

    /// A copy of the agent registered under `id`.
    pub fn get_agent(&self, id: &str) -> (r: Option<RegisteredAgent>)
        ensures
            match r {
                Some(a) => self.agent(id@) == Some(agent_view(a)),
                None => self.agent(id@) is None,
            },
    {
        proof {
            use_type_invariant(self);
        }
        match self.find_agent(id) {
            Some(i) => {
                proof {
                    lemma_lookup_at(self.agent_ids(), self.agents_spec(), i as int);
                }
                Some(copy_agent(&self.agents[i]))
            },
            None => {
                proof {
                    lemma_lookup_absent(self.agent_ids(), self.agents_spec(), id@);
                }
                None
            },
        }
    }

    /// Copies of all registered agents, one per id, in order of first
    /// registration.
    pub fn list_agents(&self) -> (v: Vec<RegisteredAgent>)
        ensures
            v@.map_values(|a: RegisteredAgent| agent_view(a)) == self.agents_spec(),
            ids_unique(self.agent_ids()),
            forall|i: int| 0 <= i < v@.len() ==> self.agent(#[trigger] v@[i].id@) == Some(agent_view(v@[i])),
    {
        proof {
            use_type_invariant(self);
        }
        let mut v: Vec<RegisteredAgent> = Vec::new();
        let mut i: usize = 0;
        while i < self.agents.len()
            invariant
                i <= self.agents@.len(),
                v@.map_values(|a: RegisteredAgent| agent_view(a)) == self.agents_spec().take(i as int),
            decreases self.agents@.len() - i,
        {
            let ghost before = v@;
            v.push(copy_agent(&self.agents[i]));
            proof {
                assert(v@.map_values(|a: RegisteredAgent| agent_view(a))
                    =~= before.map_values(|a: RegisteredAgent| agent_view(a)).push(agent_view(self.agents@[i as int])));
                assert(self.agents_spec().take(i + 1) =~= self.agents_spec().take(i as int).push(agent_view(self.agents@[i as int])));
            }
            i = i + 1;
        }
        proof {
            assert(self.agents_spec().take(self.agents@.len() as int) =~= self.agents_spec());
            assert forall|i: int| 0 <= i < v@.len() implies self.agent(#[trigger] v@[i].id@) == Some(agent_view(v@[i])) by {
                assert(v@.map_values(|a: RegisteredAgent| agent_view(a))[i] == agent_view(v@[i]));
                assert(self.agent_ids()[i] == v@[i].id@);
                lemma_lookup_at(self.agent_ids(), self.agents_spec(), i);
            }
        }
        v
    }

    /// The provider registered under `id`.
    pub fn get_provider(&self, id: &str) -> (r: Option<&P>)
        ensures
            match r {
                Some(p) => self.provider(id@) == Some(*p),
                None => self.provider(id@) is None,
            },
    {
        proof {
            use_type_invariant(self);
        }
        match self.find_provider(id) {
            Some(i) => {
                proof {
                    lemma_lookup_at(self.provider_ids(), self.providers_spec(), i as int);
                }
                Some(&self.providers[i].1)
            },
            None => {
                proof {
                    lemma_lookup_absent(self.provider_ids(), self.providers_spec(), id@);
                }
                None
            },
        }
    }

    /// How many provider ids are registered.
    pub fn provider_count(&self) -> (n: usize)
        ensures
            n == self.provider_ids().len(),
    {
        self.providers.len()
    }

    /// How many agent ids are registered.
    pub fn agent_count(&self) -> (n: usize)
        ensures
            n == self.agent_ids().len(),
    {
        self.agents.len()
    }
}

impl<P> Default for AgentRegistry<P> {
    fn default() -> (r: Self)
        ensures
            r.agents_spec().len() == 0,
            r.provider_ids().len() == 0,
    {
        AgentRegistry::new()
    }
}

} // verus!
