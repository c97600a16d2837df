use polish::testing::route::{RouteResponse, RouteTestClient};
use polish::testing::snapshot::{SnapshotStore, SnapshotVerdict, TestConfig};

#[test]
fn stub_client_responses() {
    let c = RouteTestClient::new("http://localhost:3000");
    let r = c.get("/orders");
    assert!(r.is_ok());
    assert!(!r.is_redirect());
    assert_eq!(r.body, "<!-- GET /orders -->");
    assert_eq!(r.content_type(), Some("text/html"));
    assert_eq!(r.header("Content-Type"), Some("text/html"));
    assert_eq!(r.header("x-missing"), None);
    let p = c.post("/orders", "é=1");
    assert_eq!(p.body, "<!-- POST /orders body_len=4 -->");
}

#[test]
fn response_assertions() {
    let r = RouteResponse { status: 302, headers: vec![], body: "<p>moved</p>".to_string() };
    assert!(r.is_redirect());
    assert_eq!(r.assert_status(200).unwrap_err(), "Expected status 200, got 302");
    assert!(r.assert_status(302).is_ok());
    assert!(r.assert_contains("moved").is_ok());
    assert_eq!(r.assert_contains("gone").unwrap_err(), "Response body does not contain: \"gone\"");
    assert!(r.assert_not_contains("gone").is_ok());
    assert!(r.assert_not_contains("moved").is_err());
    assert_eq!(r.content_type(), None);
}

#[test]
fn snapshot_verdicts_and_names() {
    let store = SnapshotStore::new("snaps", false);
    assert_eq!(store.file_name("home"), "home.snap");
    assert!(matches!(store.verdict("home", None, "<p>a</p>"), SnapshotVerdict::Write));
    assert!(matches!(store.verdict("home", Some("<p>a</p>"), "<p>a</p>"), SnapshotVerdict::Match));
    match store.verdict("home", Some("old"), "new") {
        SnapshotVerdict::Mismatch(m) => {
            assert_eq!(m, "Snapshot mismatch for 'home':\n--- expected ---\nold\n--- actual ---\nnew")
        }
        _ => panic!("expected a mismatch"),
    }
    let updating = SnapshotStore::new("snaps", true);
    assert!(matches!(updating.verdict("home", Some("old"), "new"), SnapshotVerdict::Write));
    let files = vec!["a.snap".to_string(), "notes.txt".to_string(), "b.snap".to_string(), ".snap".to_string()];
    assert_eq!(store.snapshot_names(&files), vec!["a".to_string(), "b".to_string(), "".to_string()]);
    let cfg = TestConfig::with_update(true);
    assert_eq!(cfg.base_url, "http://localhost:3000");
    assert_eq!(cfg.snapshot_dir, "tests/snapshots");
    assert!(cfg.update_snapshots);
}
