//! The live runtime: its configuration and the channels it broadcasts on.
use vstd::prelude::*;
use crate::live::channel::{broadcast_step, ChannelRegistry, channel_index};
use crate::live::event::LiveEvent;
use crate::live::fragment::{LiveFragment, is_fragment_event};

verus! {

#[derive(Clone)]
pub struct LiveConfig {
    pub heartbeat_interval_ms: u64,
    pub max_clients_per_channel: usize,
    pub reconnect_timeout_ms: u64,
}

impl Default for LiveConfig {
    fn default() -> (c: Self)
        ensures
            c.heartbeat_interval_ms == 15_000,
            c.max_clients_per_channel == 1000,
            c.reconnect_timeout_ms == 5_000,
    {
        LiveConfig { heartbeat_interval_ms: 15_000, max_clients_per_channel: 1000, reconnect_timeout_ms: 5_000 }
    }
}

pub struct LiveRuntime<F: Fn(LiveEvent) -> bool> {
    pub config: LiveConfig,
    pub registry: ChannelRegistry<F>,
}

/// The outcome of broadcasting `event` on `channel` of a registry: nothing is
/// sent when there is no such channel; else each client's sender is handed the
/// event, the clients whose sender returned `true` are kept, and they are
/// counted.
pub open spec fn broadcast_outcome<F: Fn(LiveEvent) -> bool>(before: ChannelRegistry<F>, after: ChannelRegistry<F>,
    channel: Seq<char>, event: LiveEvent, n: usize) -> bool {
    &&& after.wf()
    &&& after.max_spec() == before.max_spec()
    &&& after.names() == before.names()
    &&& match channel_index(before.names(), channel) {
        Some(i) => {
            &&& after.chans() == before.chans().update(i, after.chans()[i])
            &&& broadcast_step(before.chans()[i], after.chans()[i], event, n)
        },
        None => n == 0 && after.chans() == before.chans(),
    }
}

impl<F: Fn(LiveEvent) -> bool> LiveRuntime<F> {
    pub fn new(config: LiveConfig) -> (r: Self)
        ensures
            r.config == config,
            r.registry.max_spec() == config.max_clients_per_channel,
            r.registry.chans().len() == 0,
            r.registry.wf(),
    {
        let max = config.max_clients_per_channel;
        LiveRuntime { registry: ChannelRegistry::new(max), config }
    }

    pub fn broadcast(&mut self, channel: &str, event: LiveEvent) -> (n: usize)
        requires
            old(self).registry.wf(),
        ensures
            final(self).config == old(self).config,
            broadcast_outcome(old(self).registry, final(self).registry, channel@, event, n),
    {
        self.registry.broadcast(channel, event)
    }

    /// Broadcasts a fragment update: the event that carries the fragment.
    pub fn push_fragment(&mut self, channel: &str, frag: LiveFragment) -> (n: usize)
        requires
            old(self).registry.wf(),
        ensures
            final(self).config == old(self).config,
            exists|event: LiveEvent| #[trigger] is_fragment_event(event, frag)
                && broadcast_outcome(old(self).registry, final(self).registry, channel@, event, n),
    {
        let event = frag.to_event();
        let ghost e = event;
        let n = self.registry.broadcast(channel, event);
        assert(is_fragment_event(e, frag));
        n
    }
}

} // verus!
