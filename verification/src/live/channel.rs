//! Named channels of subscribed clients, and the registry that holds them.
use vstd::prelude::*;
use std::collections::HashMap;
use crate::live::event::{EventKind, LiveEvent};
use crate::text::{str_eq, to_owned_string};

verus! {

broadcast use vstd::std_specs::hash::group_hash_axioms;

pub type ClientId = u64;

/// The clients whose sender returned `true`, given one outcome per client.
pub open spec fn delivered_to(results: Map<u64, bool>) -> Set<u64> {
    Set::new(|k: u64| results.dom().contains(k) && results[k])
}

/// The clients whose sender returned `false`, given one outcome per client.
pub open spec fn dropped_by(results: Map<u64, bool>) -> Set<u64> {
    Set::new(|k: u64| results.dom().contains(k) && !results[k])
}

/// What a broadcast of `event` does to a channel: each client's sender is
/// handed the event, the clients whose sender returned `false` are dropped,
/// and the count returned is the number of clients kept, those whose sender
/// returned `true`.
pub open spec fn broadcast_step<F: Fn(LiveEvent) -> bool>(before: Channel<F>, after: Channel<F>, event: LiveEvent, n: usize) -> bool {
    &&& after.wf()
    &&& after.name_spec() == before.name_spec()
    &&& after.max_spec() == before.max_spec()
    &&& after.next_id_spec() == before.next_id_spec()
    &&& after.ids().len() == n
    &&& exists|results: Map<u64, bool>| {
        &&& results.dom() == before.ids()
        &&& forall|k: u64| results.dom().contains(k)
            ==> call_ensures(before.clients()[k], (event,), #[trigger] results[k])
        &&& after.clients() == before.clients().remove_keys(dropped_by(results))
        &&& after.ids() == delivered_to(results)
    }
}

pub struct Channel<F: Fn(LiveEvent) -> bool> {
    pub name: String,
    max_clients: usize,
    clients: HashMap<u64, F>,
    next_id: u64,
}

/// A copy of an event, field by field.
fn copy_event(e: &LiveEvent) -> (r: LiveEvent)
    ensures
        r == *e,
{
    let id = match &e.id {
        Some(i) => Some(i.clone()),
        None => None,
    };
    let kind = match &e.kind {
        EventKind::Message => EventKind::Message,
        EventKind::Fragment => EventKind::Fragment,
        EventKind::Heartbeat => EventKind::Heartbeat,
        EventKind::StateSync => EventKind::StateSync,
        EventKind::Custom(c) => EventKind::Custom(c.clone()),
    };
    LiveEvent { id, kind, data: e.data.clone(), retry_ms: e.retry_ms }
}

impl<F: Fn(LiveEvent) -> bool> Channel<F> {
    pub closed spec fn name_spec(&self) -> Seq<char> {
        self.name@
    }

    /// The most clients the channel takes.
    pub closed spec fn max_spec(&self) -> usize {
        self.max_clients
    }

    /// The subscribed clients: each id with its sender.
    pub closed spec fn clients(&self) -> Map<u64, F> {
        self.clients@
    }

    /// The ids of the subscribed clients.
    pub open spec fn ids(&self) -> Set<u64> {
        self.clients().dom()
    }

    /// The id the next subscriber gets.
    pub closed spec fn next_id_spec(&self) -> u64 {
        self.next_id
    }

    /// Finitely many clients, every id below the next id, and every sender
    /// takes any event.
    pub open spec fn wf(&self) -> bool {
        &&& self.ids().finite()
        &&& forall|k: u64| #[trigger] self.ids().contains(k) ==> k < self.next_id_spec()
        &&& self.next_id_spec() >= 1
        &&& forall|k: u64, e: LiveEvent| self.ids().contains(k) ==> #[trigger] call_requires(self.clients()[k], (e,))
    }

    pub fn new(name: &str, max_clients: usize) -> (c: Self)
        ensures
            c.name_spec() == name@,
            c.max_spec() == max_clients,
            c.clients() == Map::<u64, F>::empty(),
            c.next_id_spec() == 1,
            c.wf(),
    {
        Channel { name: to_owned_string(name), max_clients, clients: HashMap::new(), next_id: 1 }
    }

    /// Subscribes a client with `sender`: refused when the channel is full,
    /// else the client gets the next id.
    pub fn subscribe(&mut self, sender: F) -> (r: Option<u64>)
        requires
            old(self).wf(),
            old(self).next_id_spec() < u64::MAX,
            forall|e: LiveEvent| call_requires(sender, (e,)),
        ensures
            final(self).wf(),
            final(self).name_spec() == old(self).name_spec(),
            final(self).max_spec() == old(self).max_spec(),
            (r, final(self).ids(), final(self).next_id_spec())
                == subscribe_outcome(old(self).ids(), old(self).next_id_spec(), old(self).max_spec()),
            final(self).clients() == match r {
                Some(id) => old(self).clients().insert(id, sender),
                None => old(self).clients(),
            },
            r matches Some(id) ==> !old(self).ids().contains(id),
    {
        if self.clients.len() >= self.max_clients {
            return None;
        }
        let id = self.next_id;
        self.next_id = self.next_id + 1;
        self.clients.insert(id, sender);
        proof {
            assert(self.ids() =~= old(self).ids().insert(id));
        }
        Some(id)
    }

    /// Removes the client with id `client_id`, if it is subscribed.
    pub fn unsubscribe(&mut self, client_id: u64)
        requires
            old(self).wf(),
        ensures
            final(self).wf(),
            final(self).name_spec() == old(self).name_spec(),
            final(self).max_spec() == old(self).max_spec(),
            final(self).next_id_spec() == old(self).next_id_spec(),
            final(self).clients() == old(self).clients().remove(client_id),
    {
        self.clients.remove(&client_id);
    }

    /// Hands a copy of `event` to every client's sender, drops the clients
    /// whose sender returned `false`, and returns how many returned `true`.
    pub fn broadcast(&mut self, event: LiveEvent) -> (n: usize)
        requires
            old(self).wf(),
        ensures
            broadcast_step(*old(self), *final(self), event, n),
    {
        let ghost m0 = self.clients@;
        let mut ids: Vec<u64> = Vec::new();
        for k in it: self.clients.keys()
            invariant
                self.clients@ == m0,
                it.seq().unref().to_set() == m0.dom(),
                it.seq().no_duplicates(),
                ids@ == it.seq().take(it.index() as int).unref(),
                ids@.no_duplicates(),
                forall|x: u64| ids@.contains(x) ==> m0.dom().contains(x),
                it.index() == it.seq().len() ==> forall|x: u64| m0.dom().contains(x) ==> ids@.contains(x),
        {
            ids.push(*k);
            proof {
                assert(ids@ =~= it.seq().take(it.index() + 1).unref());
                lemma_keys_prefix(it.seq(), it.index() + 1, ids@, m0.dom());
            }
        }
        let mut dead: Vec<u64> = Vec::new();
        let ghost mut res: Map<u64, bool> = Map::empty();
        let mut j: usize = 0;
        while j < ids.len()
            invariant
                self.wf(),
                self.clients@ == m0,
                j <= ids@.len(),
                forall|k: u64| ids@.contains(k) <==> m0.dom().contains(k),
                ids@.no_duplicates(),
                forall|k: u64| res.dom().contains(k) <==> exists|i: int| 0 <= i < j && ids@[i] == k,
                forall|k: u64| res.dom().contains(k) ==> call_ensures(m0[k], (event,), #[trigger] res[k]),
                forall|k: u64| #![trigger dead@.contains(k)] #![trigger res.dom().contains(k)]
                    dead@.contains(k) <==> (res.dom().contains(k) && !res[k]),
            decreases ids@.len() - j,
        {
            let id = ids[j];
            assert(ids@.contains(id));
            match self.clients.get(&id) {
                Some(f) => {
                    let e = copy_event(&event);
                    assert(call_requires(self.clients()[id], (e,)));
                    let ok = f(e);
                    let ghost before_dead = dead@;
                    let ghost res_old = res;
                    proof {
                        assert(!res.dom().contains(id)) by {
                            if res.dom().contains(id) {
                                let i = choose|i: int| 0 <= i < j && ids@[i] == id;
                                assert(ids@[i] == ids@[j as int]);
                            }
                        }
                        res = res.insert(id, ok);
                    }

                    if !ok {
                        dead.push(id);
                    }
                    assert forall|k: u64| dead@.contains(k) <==> (res.dom().contains(k) && !res[k]) by {
                        assert(before_dead.contains(k) <==> (res_old.dom().contains(k) && !res_old[k]));
                        if !ok {
                            assert(dead@ == before_dead.push(id));
                            if before_dead.contains(k) {
                                let i = choose|i: int| 0 <= i < before_dead.len() && before_dead[i] == k;
                                assert(dead@[i] == k);
                            }
                            if k == id {
                                assert(dead@[dead@.len() - 1] == k);
                            }
                            if dead@.contains(k) && k != id {
                                let i = choose|i: int| 0 <= i < dead@.len() && dead@[i] == k;
                                assert(i < before_dead.len());
                                assert(before_dead[i] == k);
                            }
                        } else {
                            assert(dead@ == before_dead);
                        }
                    }
                    assert forall|k: u64| res.dom().contains(k) <==> exists|i: int| 0 <= i < j + 1 && ids@[i] == k by {
                        if k == id {
                            assert(ids@[j as int] == k);
                        }
                    }
                },
                None => {
                    assert(false);
                },
            }
            j = j + 1;
        }
        assert forall|k: u64| res.dom().contains(k) <==> m0.dom().contains(k) by {
            if res.dom().contains(k) {
                let i = choose|i: int| 0 <= i < ids@.len() && ids@[i] == k;
                assert(ids@.contains(k));
            }
            if m0.dom().contains(k) {
                assert(ids@.contains(k));
                let i = choose|i: int| 0 <= i < ids@.len() && ids@[i] == k;
            }
        }
        assert(res.dom() =~= m0.dom());
        let mut t: usize = 0;
        while t < dead.len()
            invariant
                t <= dead@.len(),
                self.clients@ == m0.remove_keys(Set::new(|k: u64| exists|i: int| 0 <= i < t && dead@[i] == k)),
                self.name == old(self).name,
                self.max_clients == old(self).max_clients,
                self.next_id == old(self).next_id,
            decreases dead@.len() - t,
        {
            let id = dead[t];
            let ghost before = self.clients@;
            self.clients.remove(&id);
            proof {
                assert(self.clients@ =~= m0.remove_keys(Set::new(|k: u64| exists|i: int| 0 <= i < t + 1 && dead@[i] == k)));
            }
            t = t + 1;
        }
        assert(Set::new(|k: u64| exists|i: int| 0 <= i < dead@.len() && dead@[i] == k) =~= dropped_by(res));
        assert(self.ids() =~= delivered_to(res));
        self.clients.len()
    }

    pub fn client_count(&self) -> (n: usize)
        ensures
            n == self.ids().len(),
    {
        self.clients.len()
    }

    /// The id the next subscriber gets.
    pub fn next_client_id(&self) -> (n: u64)
        ensures
            n == self.next_id_spec(),
    {
        self.next_id
    }
}

proof fn lemma_keys_prefix(s: Seq<&u64>, n: int, ids: Seq<u64>, dom: Set<u64>)
    requires
        0 <= n <= s.len(),
        ids == s.take(n).unref(),
        s.unref().to_set() == dom,
    ensures
        forall|x: u64| ids.contains(x) ==> dom.contains(x),
        n == s.len() ==> forall|x: u64| dom.contains(x) ==> ids.contains(x),
{
    let u = s.unref();
    assert forall|x: u64| ids.contains(x) implies dom.contains(x) by {
        let i = choose|i: int| 0 <= i < ids.len() && ids[i] == x;
        assert(u[i] == x);
        assert(u.contains(x));
    }
    if n == s.len() {
        assert forall|x: u64| dom.contains(x) implies ids.contains(x) by {
            assert(u.contains(x));
            let i = choose|i: int| 0 <= i < u.len() && u[i] == x;
            assert(ids[i] == x);
        }
    }
}

/// What a subscription does to a channel with clients `ids`, next id `next`
/// and room for `max` clients: refused when full, else the next id is given
/// out and added.
pub open spec fn subscribe_outcome(ids: Set<u64>, next: u64, max: usize) -> (Option<u64>, Set<u64>, u64) {
    if ids.len() >= max {
        (None, ids, next)
    } else {
        (Some(next), ids.insert(next), (next + 1) as u64)
    }
}

/// A change to a channel's clients.
pub enum ClientOp {
    Subscribe,
    Unsubscribe(u64),
}

/// The state of a new channel with room for `max` clients after the changes
/// `ops`: its client ids, its next id, and how many subscriptions succeeded.
pub open spec fn after_client_ops(ops: Seq<ClientOp>, max: usize) -> (Set<u64>, u64, nat)
    decreases ops.len(),
{
    if ops.len() == 0 {
        (Set::empty(), 1, 0)
    } else {
        let (ids, next, n) = after_client_ops(ops.drop_last(), max);
        match ops.last() {
            ClientOp::Subscribe => {
                let (r, ids2, next2) = subscribe_outcome(ids, next, max);
                (ids2, next2, if r is Some { n + 1 } else { n })
            },
            ClientOp::Unsubscribe(id) => (ids.remove(id), next, n),
        }
    }
}

/// Client ids count the successful subscriptions, whatever unsubscriptions
/// come between: after any changes to a new channel the next id is one more
/// than the number of subscriptions that succeeded, so the next subscriber
/// gets that number plus one when there is room and is refused when the
/// channel is full; the clients stay within the limit and every id is below
/// the next one.
pub proof fn law_client_numbering(ops: Seq<ClientOp>, max: usize)
    requires
        ops.len() < u64::MAX,
    ensures
        ({
            let (ids, next, n) = after_client_ops(ops, max);
            &&& next == n + 1
            &&& n <= ops.len()
            &&& ids.finite()
            &&& ids.len() <= max
            &&& forall|k: u64| #[trigger] ids.contains(k) ==> 1 <= k < next
            &&& subscribe_outcome(ids, next, max).0 == if ids.len() < max { Some((n + 1) as u64) } else { None::<u64> }
        }),
    decreases ops.len(),
{
    if ops.len() > 0 {
        law_client_numbering(ops.drop_last(), max);
    }
}

/// The index of the first channel named `name`.
pub open spec fn channel_index(names: Seq<Seq<char>>, name: Seq<char>) -> Option<int>
    decreases names.len(),
{
    if names.len() == 0 {
        None
    } else {
        match channel_index(names.drop_last(), name) {
            Some(i) => Some(i),
            None => if names.last() == name { Some(names.len() - 1) } else { None },
        }
    }
}

proof fn lemma_channel_index(names: Seq<Seq<char>>, name: Seq<char>, i: int)
    requires
        0 <= i <= names.len(),
        forall|j: int| 0 <= j < i ==> names[j] != name,
        i < names.len() ==> names[i] == name,
    ensures
        channel_index(names, name) == if i < names.len() { Some(i) } else { None::<int> },
    decreases names.len(),
{
    if names.len() > 0 {
        let t = names.drop_last();
        if i < names.len() - 1 {
            assert forall|j: int| 0 <= j < i implies t[j] != name by {
                assert(t[j] == names[j]);
            }
            assert(t[i] == names[i]);
            lemma_channel_index(t, name, i);
        } else {
            assert forall|j: int| 0 <= j < names.len() - 1 implies t[j] != name by {
                assert(t[j] == names[j]);
            }
            lemma_channel_index(t, name, names.len() - 1);
        }
    }
}

pub struct ChannelRegistry<F: Fn(LiveEvent) -> bool> {
    max_clients: usize,
    channels: Vec<Channel<F>>,
}

impl<F: Fn(LiveEvent) -> bool> ChannelRegistry<F> {
    /// The most clients each new channel takes.
    pub closed spec fn max_spec(&self) -> usize {
        self.max_clients
    }

    /// The channels, in order of creation.
    pub closed spec fn chans(&self) -> Seq<Channel<F>> {
        self.channels@
    }

    /// The channel names, in order of creation.
    pub open spec fn names(&self) -> Seq<Seq<char>> {
        self.chans().map_values(|c: Channel<F>| c.name_spec())
    }

    /// Every channel is well formed.
    pub open spec fn wf(&self) -> bool {
        forall|i: int| 0 <= i < self.chans().len() ==> (#[trigger] self.chans()[i]).wf()
    }

    pub fn new(max_clients: usize) -> (r: Self)
        ensures
            r.max_spec() == max_clients,
            r.chans().len() == 0,
            r.wf(),
    {
        ChannelRegistry { max_clients, channels: Vec::new() }
    }

    fn find(&self, name: &str) -> (r: Option<usize>)
        ensures
            match channel_index(self.names(), name@) {
                Some(i) => r matches Some(j) && j == i && i < self.chans().len(),
                None => r is None,
            },
    {
        let ghost ns = self.names();
        let mut i: usize = 0;
        while i < self.channels.len()
            invariant
                i <= self.channels@.len(),
                ns == self.names(),
                forall|j: int| 0 <= j < i ==> ns[j] != name@,
            decreases self.channels@.len() - i,
        {
            if str_eq(self.channels[i].name.as_str(), name) {
                proof {
                    lemma_channel_index(ns, name@, i as int);
                }
                return Some(i);
            }
            i = i + 1;
        }
        proof {
            lemma_channel_index(ns, name@, i as int);
        }
        None
    }

    /// The channel named `name`, created empty when there is none.
    pub fn get_or_create(&mut self, name: &str) -> (ch: &mut Channel<F>)
        ensures
            final(self).max_spec() == old(self).max_spec(),
            match channel_index(old(self).names(), name@) {
                Some(i) => *ch == old(self).chans()[i] && final(self).chans() == old(self).chans().update(i, *final(ch)),
                None => {
                    &&& ch.name_spec() == name@
                    &&& ch.max_spec() == old(self).max_spec()
                    &&& ch.clients() == Map::<u64, F>::empty()
                    &&& ch.next_id_spec() == 1
                    &&& final(self).chans() == old(self).chans().push(*final(ch))
                },
            },
    {
        let i = match self.find(name) {
            Some(i) => i,
            None => {
                let c = Channel::new(name, self.max_clients);
                self.channels.push(c);
                self.channels.len() - 1
            },
        };
        &mut self.channels[i]
    }

    /// Broadcasts on the channel named `channel`; nothing is sent when there is none.
    pub fn broadcast(&mut self, channel: &str, event: LiveEvent) -> (n: usize)
        requires
            old(self).wf(),
        ensures
            final(self).wf(),
            final(self).max_spec() == old(self).max_spec(),
            final(self).names() == old(self).names(),
            match channel_index(old(self).names(), channel@) {
                Some(i) => {
                    &&& final(self).chans() == old(self).chans().update(i, final(self).chans()[i])
                    &&& broadcast_step(old(self).chans()[i], final(self).chans()[i], event, n)
                },
                None => n == 0 && final(self).chans() == old(self).chans(),
            },
    {
        match self.find(channel) {
            Some(i) => {
                let ghost before = self.channels@;
                let ch = &mut self.channels[i];
                let n = ch.broadcast(event);
                proof {
                    assert forall|k: int| 0 <= k < self.chans().len() implies (#[trigger] self.chans()[k]).wf() by {
                        if k != i {
                            assert(self.chans()[k] == before[k]);
                        }
                    }
                    assert(self.names() =~= before.map_values(|c: Channel<F>| c.name_spec()));
                    assert(self.chans() =~= before.update(i as int, self.chans()[i as int]));
                }
                n
            },
            None => 0,
        }
    }

    pub fn channel_names(&self) -> (v: Vec<String>)
        ensures
            v@.map_values(|s: String| s@) == self.names(),
    {
        let mut v: Vec<String> = Vec::new();
        let mut i: usize = 0;
        while i < self.channels.len()
            invariant
                i <= self.channels@.len(),
                v@.map_values(|s: String| s@) == self.names().take(i as int),
            decreases self.channels@.len() - i,
        {
            let n = self.channels[i].name.clone();
            let ghost before = v@;
            v.push(n);
            proof {
                assert(v@.map_values(|s: String| s@) =~= before.map_values(|s: String| s@).push(n@));
                assert(self.names().take(i + 1) =~= self.names().take(i as int).push(self.names()[i as int]));
            }
            i = i + 1;
        }
        proof {
            assert(self.names().take(self.names().len() as int) =~= self.names());
        }
        v
    }
}

} // verus!
