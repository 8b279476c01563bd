use bola_api::session::LoginTokenData;
use bola_api::token::{
    find_bytes, locate_token, verify_request_token, HeaderTokenConfig, LoginTokenConfig,
    TokenConfig, TokenGranter, TokenVerificationError,
};
use std::time::Duration;

fn player(name: &str) -> LoginTokenData {
    LoginTokenData { username: name.to_string(), email: format!("{name}@example.com") }
}

#[test]
fn login_token_configuration() {
    assert_eq!(LoginTokenConfig::token_length(), 32);
    assert_eq!(LoginTokenConfig::header_name(), "Login-Token");
}

#[test]
fn granted_token_is_alphanumeric_and_verifies() {
    let mut g: TokenGranter<LoginTokenConfig> = TokenGranter::new(Duration::from_secs(60));
    assert_eq!(g.token_duration(), Duration::from_secs(60));
    let t = g.create_token(player("ann"));
    assert_eq!(t.token.len(), 32);
    assert!(t.token.iter().all(|b| b.is_ascii_alphanumeric()));
    assert_eq!(t.identifier, player("ann"));
    let v = g.verify_token(&t.token).expect("token to verify");
    assert_eq!(v.token, t.token);
    assert_eq!(v.identifier, player("ann"));
}

#[test]
fn unknown_token_does_not_verify() {
    let g: TokenGranter<LoginTokenConfig> = TokenGranter::new(Duration::from_secs(60));
    assert!(g.verify_token(b"0123456789abcdef0123456789abcdef").is_none());
}

#[test]
fn revoked_token_no_longer_verifies() {
    let mut g: TokenGranter<LoginTokenConfig> = TokenGranter::new(Duration::from_secs(60));
    let a = g.create_token(player("ann"));
    let b = g.create_token(player("bob"));
    g.revoke_token(&a.token);
    assert!(g.verify_token(&a.token).is_none());
    assert_eq!(g.verify_token(&b.token).unwrap().identifier, player("bob"));
}

#[test]
fn new_token_replaces_the_old_one_of_the_same_player() {
    let mut g: TokenGranter<LoginTokenConfig> = TokenGranter::new(Duration::from_secs(60));
    let first = g.create_token(player("ann"));
    let second = g.create_token(player("ann"));
    if first.token != second.token {
        assert!(g.verify_token(&first.token).is_none());
    }
    assert_eq!(g.verify_token(&second.token).unwrap().identifier, player("ann"));
}

#[test]
fn find_bytes_gives_first_occurrence() {
    assert_eq!(find_bytes(b"abcabc", b"bc"), Some(1));
    assert_eq!(find_bytes(b"abc", b""), Some(0));
    assert_eq!(find_bytes(b"abc", b"abcd"), None);
    assert_eq!(find_bytes(b"abc", b"x"), None);
}

const T32: &str = "ABCDEFGHIJKLMNOPQRSTUVWXYZ012345";

#[test]
fn header_token_must_have_the_token_length() {
    assert_eq!(
        locate_token(Some(b"short"), None, "Login-Token", 32).unwrap_err(),
        TokenVerificationError::InvalidTokenLength
    );
    assert_eq!(locate_token(Some(T32.as_bytes()), Some("x"), "Login-Token", 32).unwrap(), T32.as_bytes());
}

#[test]
fn query_token_follows_the_lowercased_name() {
    let q = format!("a=1&login-token={T32}&b=2");
    assert_eq!(locate_token(None, Some(&q), "Login-Token", 32).unwrap(), T32.as_bytes());
    let q = format!("login-token={}", &T32[..10]);
    assert_eq!(
        locate_token(None, Some(&q), "Login-Token", 32).unwrap_err(),
        TokenVerificationError::InvalidTokenLength
    );
    assert_eq!(
        locate_token(None, Some("a=1"), "Login-Token", 32).unwrap_err(),
        TokenVerificationError::MissingToken
    );
    assert_eq!(
        locate_token(None, None, "Login-Token", 32).unwrap_err(),
        TokenVerificationError::MissingToken
    );
}

#[test]
fn request_token_checks_location_then_liveness() {
    let mut g: TokenGranter<LoginTokenConfig> = TokenGranter::new(Duration::from_secs(60));
    let t = g.create_token(player("cat"));
    let ok = verify_request_token(&g, Some(&t.token), None).unwrap();
    assert_eq!(ok.identifier, player("cat"));
    let q = format!("login-token={}", String::from_utf8(t.token.clone()).unwrap());
    assert_eq!(verify_request_token(&g, None, Some(&q)).unwrap().identifier, player("cat"));
    assert_eq!(
        verify_request_token(&g, Some(T32.as_bytes()), None).err(),
        Some(TokenVerificationError::InvalidToken)
    );
    assert_eq!(
        verify_request_token(&g, None, None).err(),
        Some(TokenVerificationError::MissingToken)
    );
}

#[test]
fn refusals_are_unauthorized() {
    assert_eq!(TokenVerificationError::MissingToken.status_and_message(), (401, "Missing token"));
    assert_eq!(
        TokenVerificationError::InvalidToken.status_and_message(),
        (401, "Invalid or expired token")
    );
    assert_eq!(
        TokenVerificationError::InvalidTokenLength.status_and_message(),
        (401, "Invalid length for token")
    );
}
