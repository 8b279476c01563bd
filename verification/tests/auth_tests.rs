use bola_api::auth_flow::{
    begin_auth, new_csrf_token, oauth_outcome, scope_string, OAuthVerification, PendingAuths,
};
use bola_api::auth_pages::{
    oidc_outcome, AuthOutcome, AuthPages, AuthPagesSrc, ExchangeError, OidcVerification,
};
use bola_api::bearer::{authorization_decision, header_carries_token, BearerAuth, PublicPaths};

#[test]
fn scopes_are_joined_by_spaces() {
    assert_eq!(scope_string(&["openid", "email"]), "openid email");
    assert_eq!(scope_string(&["openid"]), "openid");
    assert_eq!(scope_string(&[] as &[&str]), "");
    assert_eq!(scope_string(&["a", ""]), "a ");
}

#[test]
fn csrf_tokens_are_32_letters_or_digits() {
    let t = new_csrf_token();
    assert_eq!(t.len(), 32);
    assert!(t.iter().all(|b| b.is_ascii_alphanumeric()));
}

#[test]
fn a_state_is_honoured_once() {
    let mut p: PendingAuths<u32> = PendingAuths::new();
    p.track_session(b"state-a".to_vec(), 1);
    p.track_session(b"state-b".to_vec(), 2);
    assert_eq!(p.take(b"state-a"), Some(1));
    assert_eq!(p.take(b"state-a"), None);
    p.untrack_session(b"state-b");
    assert_eq!(p.take(b"state-b"), None);
    p.track_session(b"state-c".to_vec(), 3);
    p.track_session(b"state-c".to_vec(), 4);
    assert_eq!(p.take(b"state-c"), Some(4));
}

#[test]
fn redirect_outcomes() {
    assert_eq!(oauth_outcome(OAuthVerification::NotPending), AuthOutcome::Late);
    assert_eq!(oauth_outcome(OAuthVerification::ServerResponse), AuthOutcome::Invalid);
    assert_eq!(oauth_outcome(OAuthVerification::RequestFailed), AuthOutcome::InternalError);
    assert_eq!(oauth_outcome(OAuthVerification::Exchanged), AuthOutcome::Success);
    assert_eq!(oidc_outcome(OidcVerification::NotPending), AuthOutcome::Late);
    assert_eq!(
        oidc_outcome(OidcVerification::ExchangeFailed(ExchangeError::InvalidGrant)),
        AuthOutcome::Invalid
    );
    assert_eq!(
        oidc_outcome(OidcVerification::ExchangeFailed(ExchangeError::Transport)),
        AuthOutcome::InternalError
    );
    assert_eq!(oidc_outcome(OidcVerification::NoIdToken), AuthOutcome::InternalError);
    assert_eq!(oidc_outcome(OidcVerification::DecodeFailed), AuthOutcome::InternalError);
    assert_eq!(oidc_outcome(OidcVerification::ValidationFailed), AuthOutcome::Invalid);
    assert_eq!(oidc_outcome(OidcVerification::Verified), AuthOutcome::Success);
}

#[test]
fn pages_answer_outcomes() {
    let mut pages = AuthPages::new(AuthPagesSrc {
        late: "late".to_string(),
        invalid: "invalid".to_string(),
        internal_error: "oops".to_string(),
        success: "yay".to_string(),
    });
    assert_eq!(pages.page_for(AuthOutcome::Late), "late");
    assert_eq!(pages.page_for(AuthOutcome::Invalid), "invalid");
    assert_eq!(pages.page_for(AuthOutcome::InternalError), "oops");
    assert_eq!(pages.page_for(AuthOutcome::Success), "yay");
    pages.set_success("done".to_string());
    assert_eq!(pages.borrow_success(), "done");
    assert_eq!(pages.borrow_late(), "late");
}

#[test]
fn bearer_header_must_carry_the_token() {
    assert!(header_carries_token(b"Bearer secret", b"secret"));
    assert!(!header_carries_token(b"Bearer secreT", b"secret"));
    assert!(!header_carries_token(b"bearer secret", b"secret"));
    assert!(!header_carries_token(b"Bearer", b""));
    assert!(header_carries_token(b"Bearer ", b""));
    assert!(!header_carries_token(b"Bearer sec\x01ret", b"sec\x01ret"));
}

#[test]
fn public_paths_pass_without_token() {
    assert!(authorization_decision(true, None, b"secret"));
    assert!(!authorization_decision(false, None, b"secret"));
    assert!(authorization_decision(false, Some(b"Bearer secret"), b"secret"));
}

#[test]
fn bearer_auth_uses_public_path_patterns() {
    let paths = PublicPaths::new(vec!["^/public".to_string(), "^/ws$".to_string()]).unwrap();
    let auth: BearerAuth<()> = BearerAuth::new(b"tok".to_vec(), paths);
    assert_eq!(auth.authorize("/public/page", None), Ok(()));
    assert_eq!(auth.authorize("/ws", None), Ok(()));
    assert_eq!(auth.authorize("/private", None), Err(401));
    assert_eq!(auth.authorize("/private", Some(b"Bearer tok")), Ok(()));
    assert_eq!(auth.clone().authorize("/private", Some(b"Bearer nope")), Err(401));
}

#[test]
fn bad_patterns_do_not_compile() {
    assert!(PublicPaths::new(vec!["(".to_string()]).is_none());
    assert!(PublicPaths::new(vec![]).is_some());
}

#[test]
fn an_attempt_waits_under_its_fresh_token() {
    let mut p: PendingAuths<u32> = PendingAuths::new();
    let (csrf, scope) = begin_auth(&mut p, &["openid", "email", "profile"], 7);
    assert_eq!(scope, "openid email profile");
    assert_eq!(csrf.len(), 32);
    assert!(csrf.iter().all(|b| b.is_ascii_alphanumeric()));
    let (other, _) = begin_auth(&mut p, &["openid"], 8);
    assert_ne!(csrf, other);
    assert_eq!(p.take(&csrf), Some(7));
    assert_eq!(p.take(&csrf), None);
    p.untrack_session(&other);
    assert_eq!(p.take(&other), None);
}

#[test]
fn a_clone_keeps_its_own_pages() {
    let src = AuthPagesSrc {
        late: "late".to_string(),
        invalid: "invalid".to_string(),
        internal_error: "oops".to_string(),
        success: "yay".to_string(),
    };
    let mut p = AuthPages::new(src);
    p.set_success("done".to_string());
    let q = p.clone();
    p.set_late("too late".to_string());
    assert_eq!(p.borrow_late(), "too late");
    drop(p);
    assert_eq!(q.borrow_late(), "late");
    assert_eq!(q.borrow_invalid(), "invalid");
    assert_eq!(q.borrow_internal_error(), "oops");
    assert_eq!(q.borrow_success(), "done");
}
