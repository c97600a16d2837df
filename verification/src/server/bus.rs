//! The live event bus of the server, on a tokio broadcast channel.
use vstd::prelude::*;
use std::sync::Arc;
use crate::live::event::LiveEvent;
use crate::live::fragment::LiveFragment;
use crate::server::config::ServerConfig;

verus! {

#[verifier::external_type_specification]
#[verifier::external_body]
#[verifier::reject_recursive_types(T)]
pub struct ExBroadcastSender<T>(tokio::sync::broadcast::Sender<T>);

#[verifier::external_type_specification]
#[verifier::external_body]
#[verifier::reject_recursive_types(T)]
pub struct ExBroadcastReceiver<T>(tokio::sync::broadcast::Receiver<T>);

/// The largest capacity a broadcast channel takes (`usize::MAX / 2`).
pub open spec fn max_bus_capacity() -> usize {
    (usize::MAX / 2) as usize
}

/// `tokio::sync::broadcast::channel(capacity)`, keeping the sender. Tokio
/// panics on a zero capacity and on one above `usize::MAX / 2`.
#[verifier::external_body]
fn open_channel(capacity: usize) -> tokio::sync::broadcast::Sender<LiveEvent>
    requires
        0 < capacity <= max_bus_capacity(),
{
    let (tx, _rx) = tokio::sync::broadcast::channel(capacity);
    tx
}

/// `Sender::send`: hands the event to every current subscriber; with none it
/// is dropped. Nothing is stated of the outcome.
#[verifier::external_body]
fn send_event(tx: &tokio::sync::broadcast::Sender<LiveEvent>, event: LiveEvent) {
    let _ = tx.send(event);
}

/// `Sender::subscribe`: a receiver of the events sent from now on.
#[verifier::external_body]
fn subscribe_to(tx: &tokio::sync::broadcast::Sender<LiveEvent>) -> tokio::sync::broadcast::Receiver<LiveEvent> {
    tx.subscribe()
}

/// tokio-broadcast-backed live event bus for SSE endpoints.
#[derive(Clone)]
pub struct LiveBus {
    tx: Arc<tokio::sync::broadcast::Sender<LiveEvent>>,
}

impl LiveBus {
    /// A bus buffering up to `capacity` events per subscriber.
    pub fn new(capacity: usize) -> Self
        requires
            0 < capacity <= max_bus_capacity(),
    {
        LiveBus { tx: Arc::new(open_channel(capacity)) }
    }

    pub fn broadcast(&self, event: LiveEvent) {
        send_event(&self.tx, event);
    }

    pub fn message(&self, data: &str) {
        self.broadcast(LiveEvent::message(data));
    }

    /// Broadcasts a fragment update: an event of kind `fragment` carrying the
    /// fragment's JSON.
    pub fn fragment(&self, frag: LiveFragment) {
        self.broadcast(frag.to_event());
    }

    pub fn heartbeat(&self) {
        self.broadcast(LiveEvent::heartbeat());
    }

    pub fn subscribe(&self) -> tokio::sync::broadcast::Receiver<LiveEvent> {
        subscribe_to(&self.tx)
    }
}

/// Builder for a Polish HTTP server: its configuration and its live bus.
pub struct PolishServer {
    pub config: ServerConfig,
    pub bus: LiveBus,
}

impl PolishServer {
    pub fn new(config: ServerConfig) -> (s: Self)
        requires
            0 < config.live_bus_capacity <= max_bus_capacity(),
        ensures
            s.config == config,
    {
        let bus = LiveBus::new(config.live_bus_capacity);
        PolishServer { config, bus }
    }

    /// A server with the default configuration.
    pub fn default() -> (s: Self)
        ensures
            s.config.host@ == "0.0.0.0"@,
            s.config.port == 3000,
            s.config.live_bus_capacity == 256,
    {
        PolishServer::new(ServerConfig::default())
    }
}

} // verus!
