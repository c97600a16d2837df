use polish::live::event::{EventKind, LiveEvent};
use polish::live::fragment::LiveFragment;

#[test]
fn sse_format_message() {
    let ev = LiveEvent::message("hello world");
    let bytes = ev.to_sse_bytes();
    let s = String::from_utf8(bytes).unwrap();
    assert!(s.contains("data: hello world\n"));
    assert!(s.ends_with("\n\n"));
}

#[test]
fn sse_format_custom_event() {
    let ev = LiveEvent { id: Some("42".into()), kind: EventKind::Fragment, data: "{}".into(), retry_ms: None };
    let bytes = ev.to_sse_bytes();
    let s = String::from_utf8(bytes).unwrap();
    assert!(s.contains("id: 42\n"));
    assert!(s.contains("event: fragment\n"));
}

#[test]
fn fragment_sse_data() {
    let frag = LiveFragment::replace("main-content", "<p>Updated</p>");
    let data = frag.to_sse_data();
    assert!(data.contains(r#""target":"main-content""#));
    assert!(data.contains(r#""op":"replace""#));
}
