use okx_pa_agent::auth::{load_or_create_token, SiteToken};
use okx_pa_agent::auth::{
    authenticate, check_stored_token, generate_token, supplied_token, tokens_match, write_allowed, AuthVerdict,
};

const PASSWORD: &str = "correct-horse-battery-staple";

#[test]
fn bearer_and_basic_credentials_supply_the_password() {
    assert_eq!(supplied_token("Bearer abc"), Some("abc".to_string()));
    assert_eq!(
        supplied_token("Basic YWRtaW46Y29ycmVjdC1ob3JzZS1iYXR0ZXJ5LXN0YXBsZQ=="),
        Some(PASSWORD.to_string())
    );
    // Another user, bad Base64, or bytes that are not UTF-8 supply nothing.
    assert_eq!(supplied_token("Basic Z3Vlc3Q6Y29ycmVjdC1ob3JzZS1iYXR0ZXJ5LXN0YXBsZQ=="), None);
    assert_eq!(supplied_token("Basic !!!"), None);
    assert_eq!(supplied_token("Basic YWRtaW46//4="), None);
    assert_eq!(supplied_token("Token abc"), None);
    assert_eq!(supplied_token(""), None);
}

#[test]
fn tokens_are_compared_by_digest() {
    assert!(tokens_match(PASSWORD, PASSWORD));
    assert!(!tokens_match(PASSWORD, "correct-horse-battery-stapl"));
}

#[test]
fn writes_must_be_same_site_json() {
    assert!(write_allowed("GET", Some("cross-site"), None));
    assert!(write_allowed("POST", None, Some("application/json; charset=utf-8")));
    assert!(write_allowed("POST", Some("same-origin"), Some(" application/json ")));
    assert!(!write_allowed("POST", Some("cross-site"), Some("application/json")));
    assert!(!write_allowed("POST", None, Some("text/plain")));
    assert!(!write_allowed("DELETE", None, None));
}

#[test]
fn requests_are_answered_by_password_then_origin() {
    let bearer = format!("Bearer {PASSWORD}");
    assert_eq!(authenticate("", &bearer, "GET", None, None), AuthVerdict::Unconfigured);
    assert_eq!(authenticate(PASSWORD, "", "GET", None, None), AuthVerdict::Unauthorized);
    assert_eq!(authenticate(PASSWORD, "Bearer wrong", "GET", None, None), AuthVerdict::Unauthorized);
    assert_eq!(authenticate(PASSWORD, &bearer, "POST", Some("cross-site"), Some("application/json")), AuthVerdict::Forbidden);
    assert_eq!(authenticate(PASSWORD, &bearer, "POST", None, Some("application/json")), AuthVerdict::Allowed);
    assert_eq!(
        authenticate(PASSWORD, "Basic YWRtaW46Y29ycmVjdC1ob3JzZS1iYXR0ZXJ5LXN0YXBsZQ==", "GET", None, None),
        AuthVerdict::Allowed
    );
}

#[test]
fn stored_passwords_must_be_long_enough() {
    assert_eq!(check_stored_token("  0123456789abcdef01234567 \n"), Ok("0123456789abcdef01234567".to_string()));
    assert_eq!(check_stored_token("short"), Err("Web 登录口令文件无效".to_string()));
    let t = generate_token();
    assert_eq!(t.len(), 64);
    assert!(t.chars().all(|c| c.is_ascii_hexdigit() && !c.is_ascii_uppercase()));
    assert_ne!(generate_token(), t);
    let c: Vec<char> = t.chars().collect();
    assert_eq!((c[12], c[44]), ('4', '4'));
    assert!("89ab".contains(c[16]) && "89ab".contains(c[48]));
}

#[test]
fn a_fresh_password_survives_a_restart() {
    let fresh = match load_or_create_token(None) {
        Ok(SiteToken::Fresh(t)) => t,
        other => panic!("expected a fresh password, got {:?}", other),
    };
    assert_eq!(fresh.len(), 64);
    let stored = format!("{fresh}\n");
    match load_or_create_token(Some(&stored)) {
        Ok(SiteToken::Stored(t)) => assert_eq!(t, fresh),
        other => panic!("expected the stored password, got {:?}", other),
    }
    assert_eq!(load_or_create_token(Some("  short  ")).unwrap_err(), "Web 登录口令文件无效");
}

#[test]
fn padding_that_is_not_canonical_is_refused() {
    // "YWRtaW46eA==" is "admin:x"; with non-zero trailing bits it is refused.
    assert_eq!(supplied_token("Basic YWRtaW46eA=="), Some("x".to_string()));
    assert_eq!(supplied_token("Basic YWRtaW46eB=="), None);
    assert_eq!(supplied_token("Basic YWRtaW46eA"), None);
}
