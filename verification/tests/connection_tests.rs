use bola_api::server::https_wanted;
use bola_api::session::{admit_connection, Admission, ConnectionRegistry, LoginTokenData};
use bola_api::token::{LoginTokenConfig, TokenGranter, TokenVerificationError};
use std::time::Duration;

fn player(name: &str) -> LoginTokenData {
    LoginTokenData { username: name.to_string(), email: format!("{name}@example.com") }
}

#[test]
fn an_email_registers_once() {
    let mut r = ConnectionRegistry::new();
    assert!(!r.contains("a@x"));
    assert!(!r.register("a@x".to_string()));
    assert!(r.contains("a@x"));
    assert!(r.register("a@x".to_string()));
    assert!(!r.contains("b@x"));
}

#[test]
fn connections_are_admitted_by_token() {
    let mut g: TokenGranter<LoginTokenConfig> = TokenGranter::new(Duration::from_secs(60));
    let mut r = ConnectionRegistry::new();
    let t = g.create_token(player("ann"));
    let v = g.verify_token(&t.token).unwrap();
    match admit_connection(Ok(v), &mut r) {
        Admission::LoggedIn(v) => assert_eq!(v.identifier, player("ann")),
        _ => panic!("expected a logged-in connection"),
    }
    assert!(r.contains("ann@example.com"));
    let v = g.verify_token(&t.token).unwrap();
    assert!(matches!(admit_connection(Ok(v), &mut r), Admission::Refused(409, "Already Connected")));
    assert!(matches!(admit_connection(Err(TokenVerificationError::MissingToken), &mut r), Admission::Anonymous));
    assert!(matches!(
        admit_connection(Err(TokenVerificationError::InvalidToken), &mut r),
        Admission::Refused(401, "Invalid or expired token")
    ));
}

#[test]
fn https_needs_a_domain() {
    assert_eq!(https_wanted(false, ""), Ok(false));
    assert_eq!(https_wanted(true, "bola.example"), Ok(true));
    assert_eq!(https_wanted(true, ""), Err("https is true, but https_domain is empty"));
}
