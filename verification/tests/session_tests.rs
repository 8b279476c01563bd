use bola_api::leaderboard::Difficulty;
use bola_api::records::UserProfile;
use bola_api::session::{step, LoginTokenData, SessionAction, SessionEvent, SessionPhase, WSAPIMessage};

fn s(x: &str) -> String {
    x.to_string()
}

fn profile(name: &str, easy: u16, normal: u16) -> UserProfile {
    UserProfile {
        username: s(name),
        easy_highscore: easy,
        normal_highscore: normal,
        expert_highscore: 99,
        tournament_wins: vec![2],
    }
}

#[test]
fn login_with_existing_profile() {
    let (p, a) = step(SessionPhase::LoggedOut, SessionEvent::Received(WSAPIMessage::Login));
    assert!(matches!(p, SessionPhase::AwaitingAuth));
    assert!(matches!(a.as_slice(), [SessionAction::StartAuth]));

    let (p, a) = step(p, SessionEvent::AuthFinished(Some(Some(s("ann@x")))));
    assert!(matches!(&p, SessionPhase::RegisteringConnection(e) if e == "ann@x"));
    assert!(matches!(a.as_slice(), [SessionAction::RegisterConnection(e)] if e == "ann@x"));

    let (p, a) = step(p, SessionEvent::ConnectionRegistered(true));
    assert!(matches!(&p, SessionPhase::LookingUpProfile(e) if e == "ann@x"));
    assert!(matches!(a.as_slice(), [SessionAction::Send("Already Connected"), SessionAction::LookUpProfile(_)]));

    let (p, a) = step(p, SessionEvent::ProfileFound(Ok(Some(profile("ann", 1, 2)))));
    assert!(matches!(&p, SessionPhase::AwaitingToken(e, u) if e == "ann@x" && u == "ann"));
    assert!(matches!(a.as_slice(), [SessionAction::SendProfile(_), SessionAction::CreateToken(e, u)] if e == "ann@x" && u == "ann"));

    let (p, a) = step(p, SessionEvent::TokenCreated(s("TOKEN")));
    match &p {
        SessionPhase::LoggedIn(LoginTokenData { username, email }) => {
            assert_eq!(username, "ann");
            assert_eq!(email, "ann@x");
        }
        _ => panic!("expected to be logged in"),
    }
    assert!(matches!(a.as_slice(), [SessionAction::SendToken(t), SessionAction::AwaitMessage] if t == "TOKEN"));
}

#[test]
fn failed_authentication_returns_to_logged_out() {
    let (p, a) = step(SessionPhase::AwaitingAuth, SessionEvent::AuthFinished(None));
    assert!(matches!(p, SessionPhase::LoggedOut));
    assert!(matches!(a.as_slice(), [SessionAction::Send("Auth Failed"), SessionAction::AwaitMessage]));
    let (p, _) = step(SessionPhase::AwaitingAuth, SessionEvent::AuthFinished(Some(None)));
    assert!(matches!(p, SessionPhase::LoggedOut));
}

#[test]
fn logged_out_requests() {
    let (p, a) = step(SessionPhase::LoggedOut, SessionEvent::Received(WSAPIMessage::Logout));
    assert!(matches!(p, SessionPhase::LoggedOut));
    assert!(matches!(a.as_slice(), [SessionAction::Send("Must be logged in"), SessionAction::AwaitMessage]));
    let (_, a) = step(SessionPhase::LoggedOut, SessionEvent::Received(WSAPIMessage::GetLeaderboard));
    assert!(matches!(a.as_slice(), [SessionAction::AwaitMessage]));
}

#[test]
fn posting_scores_when_logged_in() {
    let who = LoginTokenData { username: s("bob"), email: s("bob@x") };
    let msg = WSAPIMessage::ScoreUpdateRequest { difficulty: s("expert"), score: 40 };
    let (p, a) = step(SessionPhase::LoggedIn(who.clone()), SessionEvent::Received(msg));
    assert!(matches!(p, SessionPhase::PostingScore(_)));
    match a.as_slice() {
        [SessionAction::PostScore(Difficulty::Expert, email, entry)] => {
            assert_eq!(email, "bob@x");
            assert_eq!((entry.score, entry.username.as_str()), (40, "bob"));
        }
        _ => panic!("expected a posted score"),
    }
    let (p, a) = step(p, SessionEvent::ScorePosted(false));
    assert!(matches!(p, SessionPhase::LoggedIn(_)));
    assert!(matches!(
        a.as_slice(),
        [SessionAction::Send("Internal Error"), SessionAction::Send("Success"), SessionAction::AwaitMessage]
    ));

    let msg = WSAPIMessage::ScoreUpdateRequest { difficulty: s("impossible"), score: 1 };
    let (p, a) = step(SessionPhase::LoggedIn(who.clone()), SessionEvent::Received(msg));
    assert!(matches!(p, SessionPhase::Ended));
    assert!(matches!(a.as_slice(), [SessionAction::Send("Not a valid difficulty"), SessionAction::End]));

    let (p, a) = step(SessionPhase::LoggedIn(who), SessionEvent::Received(WSAPIMessage::Login));
    assert!(matches!(p, SessionPhase::LoggedIn(_)));
    assert!(matches!(a.as_slice(), [SessionAction::Send("Already logged in"), SessionAction::AwaitMessage]));
}

#[test]
fn sign_up_flow() {
    let (p, a) = step(SessionPhase::LookingUpProfile(s("new@x")), SessionEvent::ProfileFound(Ok(None)));
    assert!(matches!(p, SessionPhase::AwaitingSignUp(_)));
    assert!(matches!(a.as_slice(), [SessionAction::Send("Sign Up"), SessionAction::AwaitProfile]));

    let (p, a) = step(p, SessionEvent::ReceivedProfile(profile("newbie", 5, 6)));
    assert!(matches!(&p, SessionPhase::CheckingUsername(_, pr) if pr.username == "newbie"));
    assert!(matches!(a.as_slice(), [SessionAction::CheckUsername(u)] if u == "newbie"));

    let (p2, a) = step(p, SessionEvent::UsernameChecked(Ok(true)));
    assert!(matches!(p2, SessionPhase::AwaitingSignUp(_)));
    assert!(matches!(a.as_slice(), [SessionAction::Send("Username already used"), SessionAction::AwaitProfile]));

    let (p, _) = step(p2, SessionEvent::ReceivedProfile(profile("newbie", 5, 6)));
    let (p, a) = step(p, SessionEvent::UsernameChecked(Ok(false)));
    assert!(matches!(p, SessionPhase::CreatingProfile(_, _, 5, 6)));
    assert!(matches!(a.as_slice(), [SessionAction::CreateProfile(e, u, w)] if e == "new@x" && u == "newbie" && w == &vec![2]));

    let (p, a) = step(p, SessionEvent::ProfileCreated(true));
    assert!(matches!(p, SessionPhase::AwaitingToken(_, _)));
    match a.as_slice() {
        [SessionAction::AddEntry(Difficulty::Easy, _, e1), SessionAction::AddEntry(Difficulty::Normal, _, e2), SessionAction::AddEntry(Difficulty::Expert, _, e3), SessionAction::Send("Success"), SessionAction::CreateToken(_, _)] =>
        {
            assert_eq!((e1.score, e2.score, e3.score), (5, 6, 5));
        }
        _ => panic!("expected the sign-up entries"),
    }
}

#[test]
fn inappropriate_username_is_refused() {
    let (p, a) = step(SessionPhase::AwaitingSignUp(s("x@x")), SessionEvent::ReceivedProfile(profile("fuck", 0, 0)));
    assert!(matches!(p, SessionPhase::AwaitingSignUp(_)));
    assert!(matches!(a.as_slice(), [SessionAction::Send("Inappropriate username"), SessionAction::AwaitProfile]));
}

#[test]
fn store_failures_end_the_session() {
    let (p, a) = step(SessionPhase::LookingUpProfile(s("a")), SessionEvent::ProfileFound(Err(())));
    assert!(matches!(p, SessionPhase::Ended));
    assert!(matches!(a.as_slice(), [SessionAction::Send("Internal Error"), SessionAction::End]));
    let (p, _) = step(SessionPhase::CreatingProfile(s("a"), s("b"), 0, 0), SessionEvent::ProfileCreated(false));
    assert!(matches!(p, SessionPhase::Ended));
    let (p, _) = step(SessionPhase::CheckingUsername(s("a"), profile("b", 0, 0)), SessionEvent::UsernameChecked(Err(())));
    assert!(matches!(p, SessionPhase::Ended));
}
