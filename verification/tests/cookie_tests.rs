use sso_relay::cookie::cookie_pair_of;
use sso_relay::cookie::cookie_value_of;
use sso_relay::cookie::pair_matches;

#[test]
fn set_cookie_lines_are_truncated_to_pairs() {
    assert_eq!(cookie_pair_of("name=value; Path=/; HttpOnly; Secure"), "name=value");
    assert_eq!(cookie_pair_of("bare=pair"), "bare=pair");
    assert_eq!(cookie_pair_of(""), "");
    assert_eq!(cookie_pair_of("; starts-with-attr"), "");
}

#[test]
fn cookie_values_are_unwrapped_by_name() {
    assert_eq!(
        cookie_value_of("token=abc123; Path=/", "token").as_deref(),
        Some("abc123")
    );
    assert_eq!(cookie_value_of("token=; Path=/", "token").as_deref(), Some(""));
    assert_eq!(cookie_value_of("tokenish=abc; Path=/", "token"), None);
    assert_eq!(cookie_value_of("other=abc", "token"), None);
}

#[test]
fn pair_matching_is_exact_on_the_name() {
    assert!(pair_matches("session=tok", "session"));
    assert!(!pair_matches("session2=tok", "session"));
    assert!(!pair_matches("session", "session"));
    assert!(!pair_matches("sess=tok", "session"));
}
