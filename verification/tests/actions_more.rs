use polish::actions::action::{Action, ActionOutput};
use polish::actions::csrf::{sign_token, CsrfStore, CsrfToken};
use polish::actions::error::ActionError;
use polish::actions::form::{execute_pipeline_at, ParsedForm};
use polish::actions::urlcode::url_decode;
use polish::actions::validator::Validator;
use polish::markup::escape::escape_url;

fn is_lower_hex(s: &str) -> bool {
    s.chars().all(|c| c.is_ascii_digit() || ('a'..='f').contains(&c))
}

#[test]
fn sign_token_is_hex_sha256_of_session_and_raw() {
    assert_eq!(sign_token("s1", "abc"), "3fcf52628d3d4de73357997f026b73f0b8b6d8a4d9b753270e696650dd6aeb9a");
}

#[test]
fn fresh_token_is_64_hex_chars_and_expires_in_an_hour() {
    let t = CsrfToken::new();
    assert_eq!(t.value.len(), 64);
    assert!(is_lower_hex(&t.value));
    assert!(t.expires_at > 1_600_000_000 + 3600);
    assert!(!t.is_expired());
    let u = CsrfToken::new();
    assert_ne!(t.value, u.value);
}

#[test]
fn token_expiry_boundary() {
    let t = CsrfToken { value: "x".to_string(), expires_at: 100 };
    assert!(!t.is_expired_at(100));
    assert!(t.is_expired_at(101));
}

#[test]
fn csrf_single_use_and_expiry_at_fixed_times() {
    let mut store = CsrfStore::new();
    store.store_at(CsrfToken { value: "tok".to_string(), expires_at: 200 }, 100);
    assert!(store.check_at("tok", 150));
    assert!(store.check_at("tok", 150));
    assert!(!store.check_at("tok", 201));
    assert!(store.validate_at("tok", 200));
    assert!(!store.validate_at("tok", 200));
    assert!(!store.check_at("tok", 150));
}

#[test]
fn csrf_expired_token_is_refused_and_consumed() {
    let mut store = CsrfStore::new();
    store.store_at(CsrfToken { value: "old".to_string(), expires_at: 10 }, 5);
    assert!(!store.validate_at("old", 11));
    assert!(!store.validate_at("old", 5));
}

#[test]
fn csrf_unknown_token_is_refused() {
    let mut store = CsrfStore::new();
    assert!(!store.validate("nope"));
}

#[test]
fn url_decode_percent_and_plus() {
    assert_eq!(url_decode("a%20b+c%2Fd"), "a b c/d");
    assert_eq!(url_decode("100%"), "100%");
}

#[test]
fn url_decode_inverts_escape_url_on_ascii() {
    let s = "a b&c=d/e?f";
    assert_eq!(url_decode(&escape_url(s)), s);
}

#[test]
fn query_roundtrip_through_escape_url() {
    let k = "my key";
    let v = "x&y=z";
    let q = format!("{}={}", escape_url(k), escape_url(v));
    let f = ParsedForm::from_query(&q);
    assert_eq!(f.get(k), Some(v));
}

#[test]
fn query_later_pair_wins_and_missing_is_none() {
    let f = ParsedForm::from_query("a=1&a=2&b");
    assert_eq!(f.get("a"), Some("2"));
    assert_eq!(f.get("c"), None);
    assert_eq!(f.get_or_empty("c"), "");
    assert_eq!(f.csrf_token(), None);
}

#[test]
fn validator_rules_report_messages() {
    let v = Validator::new().min_len("name", 3).max_len("name", 5).numeric("age").email("mail");
    let mut f = ParsedForm::new();
    f.insert("name", "ab");
    f.insert("age", "x1");
    f.insert("mail", "nobody");
    let errs = v.validate(&f);
    assert!(errs.contains_key("name"));
    assert!(errs.contains_key("age"));
    assert!(errs.contains_key("mail"));
    assert!(!v.is_valid(&f));
    assert_eq!(errs.get("name").unwrap()[0], "name must be at least 3 characters");
    assert_eq!(errs.get("age").unwrap()[0], "age must be a number");
    assert_eq!(errs.get("mail").unwrap()[0], "Enter a valid email address");

    let mut g = ParsedForm::new();
    g.insert("name", "abcd");
    g.insert("age", "42");
    g.insert("mail", "a@b.co");
    assert!(v.validate(&g).is_empty());
    assert!(v.is_valid(&g));
}

#[test]
fn pipeline_without_token_is_invalid_csrf() {
    let mut store = CsrfStore::new();
    let f = ParsedForm::from_query("amount=1");
    let r = execute_pipeline_at(&f, &mut store, &Validator::new(), |_p: &ParsedForm| Ok(Action::redirect("/ok")), 10);
    assert!(matches!(r, Err(ActionError::InvalidCsrf)));
}

#[test]
fn pipeline_with_invalid_input_reports_first_message() {
    let mut store = CsrfStore::new();
    store.store_at(CsrfToken { value: "t".to_string(), expires_at: 100 }, 10);
    let f = ParsedForm::from_query("amount=&_csrf=t");
    let v = Validator::new().required("amount");
    let r = execute_pipeline_at(&f, &mut store, &v, |_p: &ParsedForm| Ok(Action::redirect("/ok")), 10);
    match r {
        Err(ActionError::InvalidInput(m)) => assert_eq!(m, "amount is required"),
        _ => panic!("expected invalid input"),
    }
    assert!(!store.check_at("t", 10));
}

#[test]
fn pipeline_runs_handler_when_all_checks_pass() {
    let mut store = CsrfStore::new();
    store.store_at(CsrfToken { value: "t".to_string(), expires_at: 100 }, 10);
    let f = ParsedForm::from_query("amount=5&_csrf=t");
    let v = Validator::new().required("amount");
    let r = execute_pipeline_at(&f, &mut store, &v, |_p: &ParsedForm| Ok(Action::redirect("/done")), 10);
    match r {
        Ok(res) => match res.outcome {
            ActionOutput::Redirect { url } => assert_eq!(url, "/done"),
            _ => panic!("expected redirect"),
        },
        Err(_) => panic!("expected success"),
    }
}

#[test]
fn action_ids_are_uuid_v4() {
    let r = Action::fragment("t", "<p>x</p>");
    let id = r.action_id.clone();
    assert_eq!(id.len(), 36);
    let b: Vec<char> = id.chars().collect();
    assert_eq!(b[8], '-');
    assert_eq!(b[13], '-');
    assert_eq!(b[14], '4');
    assert_eq!(b[18], '-');
    assert_eq!(b[23], '-');
    assert_ne!(id, Action::fragment("t", "x").action_id);
    assert!(r.timestamp > 1_600_000_000);
}

#[test]
fn action_error_status_codes_and_messages() {
    assert_eq!(ActionError::Unauthorized.status_code(), 401);
    assert_eq!(ActionError::Forbidden.status_code(), 403);
    assert_eq!(ActionError::InvalidInput("m".into()).status_code(), 422);
    assert_eq!(ActionError::Conflict("c".into()).status_code(), 409);
    assert_eq!(ActionError::RateLimited.status_code(), 429);
    assert_eq!(ActionError::ServiceUnavailable.status_code(), 503);
    assert_eq!(ActionError::Internal.status_code(), 500);
    assert_eq!(ActionError::InvalidCsrf.status_code(), 403);
    assert_eq!(ActionError::DuplicateSubmission.status_code(), 409);
    assert_eq!(ActionError::Unauthorized.user_message(), "Not authorized");
    assert_eq!(ActionError::InvalidInput("bad amount".into()).user_message(), "bad amount");
}

#[test]
fn validator_label_replaces_field_name() {
    let v = Validator::new().label("amount", "Amount").required("amount").max_len("amount", 2);
    let errs = v.validate(&ParsedForm::from_query("amount=12345"));
    assert_eq!(errs.get("amount").unwrap()[0], "Amount must be at most 2 characters");
    let errs = v.validate(&ParsedForm::new());
    assert_eq!(errs.first_message(), Some("Amount is required".to_string()));
    assert_eq!(errs.len(), 1);
}

#[test]
fn query_keys_are_distinct_in_first_seen_order() {
    let f = ParsedForm::from_query("amount=100&dest=0x123&_csrf=abc&amount=7");
    assert_eq!(f.0.len(), 3);
    assert_eq!(f.get("amount"), Some("7"));
    assert_eq!(ParsedForm::from_query("q=hello+world").0.len(), 1);
}

#[test]
fn csrf_token_of_given_bytes_and_time() {
    let t = CsrfToken::new_at(&[0xab; 32], 1000);
    assert_eq!(t.value, "ab".repeat(32));
    assert_eq!(t.expires_at, 4600);
    assert!(!t.is_expired_at(4600));
    assert!(t.is_expired_at(4601));
}

#[test]
fn csrf_issue_at_signs_stores_and_validates_once() {
    let mut store = CsrfStore::new();
    let raw = [0x01u8; 32];
    let t = store.issue_at("session", &raw, 50);
    assert_eq!(t.value, sign_token("session", &"01".repeat(32)));
    assert_eq!(t.expires_at, 3650);
    assert!(store.check_at(&t.value, 3650));
    assert!(!store.check_at(&t.value, 3651));
    assert!(store.validate_at(&t.value, 100));
    assert!(!store.validate_at(&t.value, 100));
}
