use sso_relay::cipher::encrypt_password;
use sso_relay::errors::ProtocolFault;
use sso_relay::errors::SsoError;
use sso_relay::sso::extract_execution;
use sso_relay::sso::on_login_page;
use sso_relay::sso::on_submission;
use sso_relay::sso::parse_public_key;
use sso_relay::sso::prepare_submission;
use sso_relay::sso::PublicKeyParams;
use sso_relay::store::SessionStore;

const PAGE: &str = r#"<html><form method="post">
<input type="hidden" name="execution" value="e1s1-abc_DEF"/>
<input name="username"/></form></html>"#;

#[test]
fn extracts_execution_token() {
    assert_eq!(extract_execution(PAGE).as_deref(), Some("e1s1-abc_DEF"));
}

#[test]
fn extracts_first_token_of_several() {
    let body = r#"name="execution" value="first" ... name="execution" value="second""#;
    assert_eq!(extract_execution(body).as_deref(), Some("first"));
}

#[test]
fn rejects_page_without_token() {
    assert_eq!(extract_execution("<html>no marker here</html>"), None);
    // An empty value does not count as a token.
    assert_eq!(extract_execution(r#"name="execution" value="""#), None);
    // A marker without a closing quote does not count either.
    assert_eq!(extract_execution(r#"name="execution" value="unterminated"#), None);
}

#[test]
fn login_page_step_reports_missing_token() {
    let r = on_login_page("<html></html>", &vec![]);
    assert_eq!(
        r.err(),
        Some(SsoError::Protocol(ProtocolFault::MissingExecutionToken))
    );
}

#[test]
fn login_page_step_collects_cookie_pairs() {
    let cookies = vec![
        "JSESSIONID=track1; Path=/cas; HttpOnly".to_string(),
        "other=v2".to_string(),
    ];
    let data = on_login_page(PAGE, &cookies).unwrap();
    assert_eq!(data.execution, "e1s1-abc_DEF");
    assert_eq!(data.cookies, vec!["JSESSIONID=track1".to_string(), "other=v2".to_string()]);
}

#[test]
fn parses_public_key_document() {
    let body = r#"{"modulus": "ab12cd", "exponent": "10001"}"#;
    let key = parse_public_key(body).unwrap();
    assert_eq!(key.modulus, "ab12cd");
    assert_eq!(key.exponent, "10001");
}

#[test]
fn public_key_errors_name_the_missing_field() {
    assert_eq!(
        parse_public_key(r#"{"exponent": "10001"}"#).err(),
        Some(SsoError::Protocol(ProtocolFault::MissingModulus))
    );
    assert_eq!(
        parse_public_key(r#"{"modulus": "ab"}"#).err(),
        Some(SsoError::Protocol(ProtocolFault::MissingExponent))
    );
    assert_eq!(
        parse_public_key("not json at all").err(),
        Some(SsoError::Protocol(ProtocolFault::MissingModulus))
    );
}

#[test]
fn submission_form_is_bit_exact() {
    let key = PublicKeyParams { modulus: "11".to_string(), exponent: "3".to_string() };
    let cookies = vec!["a=1".to_string(), "b=2".to_string()];
    let req = prepare_submission("3210000000", "A", "e1s1", &key, &cookies).unwrap();
    let cipher = encrypt_password("A", "11", "3").unwrap();
    assert_eq!(
        req.form_body,
        format!("username=3210000000&password={}&execution=e1s1&_eventId=submit&rememberMe=true", cipher)
    );
    assert_eq!(req.cookie_header, "a=1; b=2");
}

#[test]
fn submission_rejects_bad_key() {
    let key = PublicKeyParams { modulus: "not-hex".to_string(), exponent: "3".to_string() };
    let r = prepare_submission("u", "p", "e", &key, &vec![]);
    assert_eq!(r.err(), Some(SsoError::Protocol(ProtocolFault::BadPublicKey)));
}

#[test]
fn successful_submission_stores_identity_cookie() {
    let mut store = SessionStore::new();
    let set_cookies = vec![
        "JSESSIONID=x; Path=/cas".to_string(),
        "iPlanetDirectoryPro=TGT-abc123; Path=/; Secure".to_string(),
    ];
    let r = on_submission(&set_cookies, "student1", &mut store);
    assert_eq!(r.as_deref(), Ok("TGT-abc123"));
    assert_eq!(store.get_identity_cookie().as_deref(), Some("TGT-abc123"));
    assert_eq!(store.get_username().as_deref(), Some("student1"));
}

#[test]
fn failed_submission_leaves_store_unchanged() {
    let mut store = SessionStore::new();
    // A previous login has succeeded.
    let earlier = vec!["iPlanetDirectoryPro=TGT-old; Path=/".to_string()];
    on_submission(&earlier, "student1", &mut store).unwrap();

    // The next attempt's response has no identity cookie: bad credentials.
    let set_cookies = vec!["JSESSIONID=y; Path=/cas".to_string()];
    let r = on_submission(&set_cookies, "student1", &mut store);
    assert_eq!(r.err(), Some(SsoError::Authentication));
    assert_eq!(store.get_identity_cookie().as_deref(), Some("TGT-old"));

    // An empty identity cookie value is not a success either.
    let empty = vec!["iPlanetDirectoryPro=; Path=/".to_string()];
    let r2 = on_submission(&empty, "student1", &mut store);
    assert_eq!(r2.err(), Some(SsoError::Authentication));
    assert_eq!(store.get_identity_cookie().as_deref(), Some("TGT-old"));
}

#[test]
fn last_identity_cookie_wins_within_response() {
    let mut store = SessionStore::new();
    let set_cookies = vec![
        "iPlanetDirectoryPro=TGT-first; Path=/".to_string(),
        "iPlanetDirectoryPro=TGT-second; Path=/".to_string(),
    ];
    let r = on_submission(&set_cookies, "u", &mut store);
    assert_eq!(r.as_deref(), Ok("TGT-second"));
}
