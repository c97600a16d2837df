use polish::actions::csrf::CsrfStore;
use polish::actions::form::ParsedForm;
use polish::actions::validator::Validator;

fn form(pairs: &[(&str, &str)]) -> ParsedForm {
    let mut f = ParsedForm::new();
    for (k, v) in pairs {
        f.insert(k, v);
    }
    f
}

#[test]
fn csrf_issue_and_validate() {
    let mut store = CsrfStore::new();
    let token = store.issue("session-1");
    assert!(store.validate(&token.value));
    // Single-use: second validate should fail
    assert!(!store.validate(&token.value));
}

#[test]
fn parse_form_query() {
    let f = ParsedForm::from_query("amount=100&dest=0x123&_csrf=abc");
    assert_eq!(f.get("amount"), Some("100"));
    assert_eq!(f.csrf_token(), Some("abc"));
}

#[test]
fn url_decode_plus_space() {
    let f = ParsedForm::from_query("q=hello+world");
    assert_eq!(f.get("q"), Some("hello world"));
}

#[test]
fn required_catches_empty() {
    let v = Validator::new().required("amount");
    let errs = v.validate(&form(&[("amount", "")]));
    assert!(errs.contains_key("amount"));
}

#[test]
fn valid_evm_address() {
    let v = Validator::new().evm_address("dest");
    let errs = v.validate(&form(&[("dest", "0x29E90c48082B5cC84Cfc47a3aDF87e3F3f1d86E1")]));
    assert!(errs.is_empty());
}

#[test]
fn invalid_evm_address() {
    let v = Validator::new().evm_address("dest");
    let errs = v.validate(&form(&[("dest", "not-an-address")]));
    assert!(errs.contains_key("dest"));
}
