use std::cell::RefCell;
use std::rc::Rc;

use polish::live::channel::{Channel, ChannelRegistry};
use polish::live::event::{EventKind, LiveEvent};
use polish::live::fragment::LiveFragment;
use polish::live::runtime::{LiveConfig, LiveRuntime};
use polish::live::stream::{SseEncoder, SseStream};

#[test]
fn sse_text_of_full_event() {
    let ev = LiveEvent::state_sync("a\nb").with_id("7").with_retry(1500);
    assert_eq!(ev.to_sse_text(), "id: 7\nevent: state_sync\nretry: 1500\ndata: a\ndata: b\n\n");
}

#[test]
fn sse_text_of_message_has_no_event_line() {
    assert_eq!(LiveEvent::message("x").to_sse_text(), "data: x\n\n");
    assert_eq!(LiveEvent::heartbeat().to_sse_text(), "event: heartbeat\ndata: ping\n\n");
    let custom = LiveEvent { id: None, kind: EventKind::Custom("tick".into()), data: "1".into(), retry_ms: None };
    assert_eq!(custom.to_sse_text(), "event: tick\ndata: 1\n\n");
}

#[test]
fn sse_frame_ends_with_blank_line_when_it_has_a_field() {
    assert_eq!(LiveEvent::message("").to_sse_text(), "\n");
    assert!(LiveEvent::message("").with_id("1").to_sse_text().ends_with("\n\n"));
    assert!(LiveEvent::message("a\n").to_sse_text().ends_with("\n\n"));
    assert!(LiveEvent::message("a\r\nb").to_sse_text().ends_with("\n\n"));
}

#[test]
fn encoder_frames() {
    assert_eq!(SseEncoder::comment("keep-alive"), b": keep-alive\n\n".to_vec());
    assert_eq!(SseEncoder::retry(3000), b"retry: 3000\n\n".to_vec());
    assert_eq!(SseEncoder::encode(&LiveEvent::message("hi")), b"data: hi\n\n".to_vec());
}

#[test]
fn stream_drains_in_order_and_empties() {
    let mut s = SseStream::new();
    s.push(LiveEvent::message("one"));
    s.push(LiveEvent::message("two"));
    assert_eq!(s.drain_bytes(), b"data: one\n\ndata: two\n\n".to_vec());
    assert_eq!(s.drain_bytes(), Vec::<u8>::new());
}

#[test]
fn fragment_json_escapes_html_and_stays_on_one_line() {
    let f = LiveFragment::append("list", "<li class=\"x\">a\nb</li>");
    let data = f.to_sse_data();
    assert_eq!(data, "{\"target\":\"list\",\"op\":\"append\",\"html\":\"<li class=\\\"x\\\">a\\nb</li>\"}");
    assert!(!data.contains('\n'));
    assert_eq!(
        LiveFragment::remove("gone").to_sse_data(),
        "{\"target\":\"gone\",\"op\":\"remove\",\"html\":\"\"}"
    );
    assert!(LiveFragment::prepend("p", "x").to_sse_data().contains("\"op\":\"prepend\""));
}

type Recorder = Box<dyn Fn(LiveEvent) -> bool>;

fn recorder(accept: bool) -> (Recorder, Rc<RefCell<Vec<String>>>) {
    let seen = Rc::new(RefCell::new(Vec::new()));
    let log = seen.clone();
    let sink: Recorder = Box::new(move |event: LiveEvent| {
        log.borrow_mut().push(event.data.clone());
        accept
    });
    (sink, seen)
}

#[test]
fn channel_subscribe_respects_limit_and_ids_increase() {
    let mut ch: Channel<Recorder> = Channel::new("c", 2);
    let (a, _) = recorder(true);
    let (b, _) = recorder(true);
    let (c, _) = recorder(true);
    assert_eq!(ch.subscribe(a), Some(1));
    assert_eq!(ch.subscribe(b), Some(2));
    assert_eq!(ch.subscribe(c), None);
    assert_eq!(ch.client_count(), 2);
    ch.unsubscribe(1);
    assert_eq!(ch.client_count(), 1);
    let (d, _) = recorder(true);
    assert_eq!(ch.subscribe(d), Some(3));
}

#[test]
fn channel_broadcast_drops_refusing_clients() {
    let mut ch: Channel<Recorder> = Channel::new("c", 10);
    let (a, seen_a) = recorder(true);
    let (b, seen_b) = recorder(false);
    ch.subscribe(a);
    ch.subscribe(b);
    assert_eq!(ch.broadcast(LiveEvent::message("m1")), 1);
    assert_eq!(ch.client_count(), 1);
    assert_eq!(ch.broadcast(LiveEvent::message("m2")), 1);
    assert_eq!(*seen_a.borrow(), vec!["m1".to_string(), "m2".to_string()]);
    assert_eq!(*seen_b.borrow(), vec!["m1".to_string()]);
}

#[test]
fn registry_creates_channels_once_and_broadcasts_by_name() {
    let mut reg: ChannelRegistry<Recorder> = ChannelRegistry::new(5);
    let (a, seen) = recorder(true);
    reg.get_or_create("news").subscribe(a);
    reg.get_or_create("news");
    reg.get_or_create("other");
    assert_eq!(reg.channel_names(), vec!["news".to_string(), "other".to_string()]);
    assert_eq!(reg.broadcast("news", LiveEvent::message("hello")), 1);
    assert_eq!(reg.broadcast("missing", LiveEvent::message("x")), 0);
    assert_eq!(*seen.borrow(), vec!["hello".to_string()]);
}

#[test]
fn runtime_pushes_fragments_as_fragment_events() {
    let config = LiveConfig::default();
    assert_eq!(config.heartbeat_interval_ms, 15_000);
    assert_eq!(config.max_clients_per_channel, 1000);
    assert_eq!(config.reconnect_timeout_ms, 5_000);
    let mut rt: LiveRuntime<Recorder> = LiveRuntime::new(config);
    let (a, seen) = recorder(true);
    rt.registry.get_or_create("page").subscribe(a);
    assert_eq!(rt.push_fragment("page", LiveFragment::replace("t", "<b>x</b>")), 1);
    assert_eq!(rt.broadcast("page", LiveEvent::message("y")), 1);
    assert_eq!(
        *seen.borrow(),
        vec!["{\"target\":\"t\",\"op\":\"replace\",\"html\":\"<b>x</b>\"}".to_string(), "y".to_string()]
    );
}
