use roster_messenger::errors::AuthError;
use roster_messenger::session::{is_session_lost, Credentials, SessionClient};

fn creds() -> Credentials {
    Credentials {
        server: "https://s.example".to_string(),
        login: "me".to_string(),
        password: "pw".to_string(),
    }
}

#[test]
fn fresh_client_has_no_session() {
    let client = SessionClient::new(creds());
    assert!(!client.has_session());
    assert!(matches!(client.cookie_header(), Err(AuthError::NoSession)));
}

#[test]
fn request_urls_follow_the_server() {
    let client = SessionClient::new(creds());
    assert_eq!(client.login_url(), "https://s.example/api/v1/auth/login");
    assert_eq!(client.confirm_url(&"n0".to_string()), "https://s.example/api/v1/auth/n0");
    assert_eq!(client.logout_url(), "https://s.example/api/v1/auth/logout");
    assert_eq!(client.expected_landing_url(), "https://s.example/messages/inbox");
}

#[test]
fn missing_nonce_fails_the_first_step() {
    assert!(matches!(SessionClient::check_nonce(None), Err(AuthError::NoNonce)));
    assert_eq!(SessionClient::check_nonce(Some("n1".to_string())).unwrap(), "n1");
}

#[test]
fn login_captures_the_cookie_exactly() {
    let mut client = SessionClient::new(creds());
    client.complete_login(Some("JWT=abc123; Path=/; HttpOnly"), 77).unwrap();
    let session = client.session.as_ref().unwrap();
    assert_eq!(session.cookie_name, "JWT");
    assert_eq!(session.cookie_value, "abc123");
    assert_eq!(session.authenticated_at, 77);
    assert_eq!(client.cookie_header().unwrap(), "JWT=abc123");
}

#[test]
fn missing_set_cookie_fails_and_keeps_the_old_session() {
    let mut client = SessionClient::new(creds());
    client.complete_login(Some("sid=s1"), 1).unwrap();
    assert!(matches!(client.complete_login(None, 2), Err(AuthError::NoCookie)));
    let session = client.session.as_ref().unwrap();
    assert_eq!(session.cookie_value, "s1");
    assert_eq!(session.authenticated_at, 1);
}

#[test]
fn unusable_set_cookie_fails() {
    let mut client = SessionClient::new(creds());
    assert!(matches!(client.complete_login(Some(""), 0), Err(AuthError::NoCookie)));
    assert!(!client.has_session());
}

#[test]
fn relogin_replaces_the_session_wholesale() {
    let mut client = SessionClient::new(creds());
    client.complete_login(Some("sid=first"), 1).unwrap();
    client.complete_login(Some("sid=second; Secure"), 2).unwrap();
    let session = client.session.as_ref().unwrap();
    assert_eq!(session.cookie_value, "second");
    assert_eq!(session.authenticated_at, 2);
}

#[test]
fn session_loss_is_a_landing_elsewhere() {
    let expected = "https://s.example/messages/inbox".to_string();
    assert!(!is_session_lost(&expected.clone(), &expected));
    assert!(is_session_lost(&"https://s.example/login".to_string(), &expected));
}
