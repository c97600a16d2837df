use polish::live::event::EventKind;
use polish::live::fragment::LiveFragment;
use polish::server::bus::{LiveBus, PolishServer};
use polish::server::config::ServerConfig;

#[test]
fn config_defaults_and_address() {
    let c = ServerConfig::default();
    assert_eq!(c.addr(), "0.0.0.0:3000");
    assert_eq!(c.live_bus_capacity, 256);
    let c = ServerConfig::new().host("127.0.0.1").port(8080);
    assert_eq!(c.addr(), "127.0.0.1:8080");
}

#[test]
fn bus_delivers_to_subscribers_in_order() {
    let bus = LiveBus::new(8);
    let mut rx = bus.subscribe();
    bus.message("hello");
    bus.fragment(LiveFragment::replace("t", "<p>x</p>"));
    bus.heartbeat();
    let a = rx.try_recv().unwrap();
    assert_eq!(a.kind, EventKind::Message);
    assert_eq!(a.data, "hello");
    let b = rx.try_recv().unwrap();
    assert_eq!(b.kind, EventKind::Fragment);
    assert_eq!(b.data, "{\"target\":\"t\",\"op\":\"replace\",\"html\":\"<p>x</p>\"}");
    let c = rx.try_recv().unwrap();
    assert_eq!(c.kind, EventKind::Heartbeat);
    assert!(rx.try_recv().is_err());
}

#[test]
fn bus_without_subscribers_drops_events() {
    let bus = LiveBus::new(1);
    bus.message("nobody listens");
    let mut rx = bus.subscribe();
    assert!(rx.try_recv().is_err());
}

#[test]
fn server_uses_its_config() {
    let s = PolishServer::new(ServerConfig::new().port(9000));
    assert_eq!(s.config.port, 9000);
    let d = PolishServer::default();
    assert_eq!(d.config.addr(), "0.0.0.0:3000");
    let mut rx = d.bus.subscribe();
    d.bus.message("m");
    assert_eq!(rx.try_recv().unwrap().data, "m");
}
