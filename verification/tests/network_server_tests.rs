use bola_api::distributed::SiblingDirectory;
use bola_api::leaderboard::{Difficulty, LeaderboardEntry, LeaderboardState, LeaderboardUpdate};
use bola_api::network::{
    after_score_stored, apply_highscore_update, highscore_update_of, HighscoreUpdate, NetworkMessage,
};
use bola_api::leaderboard::AddLeaderboardEntryError;
use bola_api::server::{
    credentials_plan, match_command, pipe_name, serve_plan, start_check, BindAddress,
    CommandMatch, CredentialsPlan, IpAddress, LogFilters, LogLevel, LogLevelFilter, LogLevels,
    LogRoutes, ServePlan, SocketAddress,
};
use bola_api::ws::{classify_frame, websocket_ping, Frame, FrameStep, WebSocketCode, WsError};

fn addr(ip: u32, port: u16) -> SocketAddress {
    SocketAddress { ip: IpAddress::V4(ip), port, flowinfo: 0, scope_id: 0 }
}

#[test]
fn announcements_reach_the_named_board() {
    let e = LeaderboardEntry { score: 77, username: "ann".to_string() };
    let u = highscore_update_of(Difficulty::Expert, &e);
    assert_eq!((u.difficulty.as_str(), u.username.as_str(), u.score), ("expert", "ann", 77));
    let mut state = LeaderboardState::new(vec![], vec![], vec![], 5);
    match apply_highscore_update(&mut state, u) {
        Ok(Some(LeaderboardUpdate::Expert(board))) => assert_eq!(board.len(), 1),
        _ => panic!("expected an expert update"),
    }
    assert_eq!(state.expert.len(), 1);
    let odd = HighscoreUpdate { difficulty: "hard".to_string(), username: "x".to_string(), score: 1 };
    assert_eq!(apply_highscore_update(&mut state, odd).err(), Some("hard".to_string()));
    let NetworkMessage::HighscoreUpdate(m) = NetworkMessage::from(highscore_update_of(Difficulty::Easy, &e));
    assert_eq!(m.difficulty, "easy");
}

#[test]
fn serving_plans() {
    let (p, warn) = serve_plan(BindAddress::Network(addr(1, 8443)), true);
    assert!(matches!(p, ServePlan::Tls(a) if a == addr(1, 8443)));
    assert!(warn);
    let (p, warn) = serve_plan(BindAddress::Network(addr(1, 443)), true);
    assert!(matches!(p, ServePlan::Tls(_)) && !warn);
    let (p, _) = serve_plan(BindAddress::Network(addr(1, 8080)), false);
    assert!(matches!(p, ServePlan::Plain(a) if a == addr(1, 8080)));
    let (p, _) = serve_plan(BindAddress::HTTP(IpAddress::V4(9)), true);
    assert!(matches!(p, ServePlan::Tls(a) if a == addr(9, 443)));
    let (p, _) = serve_plan(BindAddress::HTTP(IpAddress::V4(9)), false);
    assert!(matches!(p, ServePlan::Plain(a) if a == addr(9, 80)));
    let (p, _) = serve_plan(BindAddress::Local("/tmp/s".to_string()), true);
    assert!(matches!(p, ServePlan::Local(s) if s == "/tmp/s"));
}

#[test]
fn credentials_come_from_disk_or_acme() {
    assert_eq!(credentials_plan(false, &BindAddress::Local("x".to_string())), CredentialsPlan::Load);
    assert_eq!(
        credentials_plan(true, &BindAddress::Network(addr(5, 443))),
        CredentialsPlan::Obtain(addr(5, 80))
    );
    assert_eq!(credentials_plan(true, &BindAddress::HTTP(IpAddress::V4(5))), CredentialsPlan::Fail);
}

#[test]
fn commands() {
    assert!(matches!(match_command(Some("start")), CommandMatch::Start));
    assert!(matches!(match_command(Some("stop")), CommandMatch::Unmatched(n) if n == "stop"));
    assert!(matches!(match_command(None), CommandMatch::NoCommand));
    assert_eq!(start_check(false, None), Ok(()));
    assert_eq!(start_check(true, None), Err("A server may be active".to_string()));
    assert_eq!(start_check(true, Some("busy".to_string())), Err("busy".to_string()));
    assert_eq!(pipe_name(None, "/dev/bola.sock"), "/dev/bola.sock");
    assert_eq!(pipe_name(Some("other".to_string()), "/dev/bola.sock"), "other");
}

#[test]
fn log_records_are_routed_by_target_and_level() {
    let f = LogFilters::new();
    let levels = LogLevels {
        critical: LogLevelFilter::Warn,
        stderr: LogLevelFilter::Info,
        routing: LogLevelFilter::Debug,
    };
    assert_eq!(
        f.routes("bola_api::leaderboard", LogLevel::Error, levels),
        LogRoutes { stderr: true, stderr_file: true, routing_file: false, security_file: false }
    );
    assert_eq!(
        f.routes("bola_api::leaderboard", LogLevel::Info, levels),
        LogRoutes { stderr: false, stderr_file: true, routing_file: false, security_file: false }
    );
    assert_eq!(
        f.routes("hyper::proto::h1", LogLevel::Debug, levels),
        LogRoutes { stderr: false, stderr_file: false, routing_file: true, security_file: false }
    );
    assert_eq!(
        f.routes("routing", LogLevel::Trace, levels),
        LogRoutes { stderr: false, stderr_file: false, routing_file: false, security_file: false }
    );
    assert_eq!(
        f.routes("suspicious_security", LogLevel::Trace, levels),
        LogRoutes { stderr: false, stderr_file: false, routing_file: false, security_file: true }
    );
    assert_eq!(
        f.routes("x::mio", LogLevel::Error, levels),
        LogRoutes { stderr: true, stderr_file: true, routing_file: false, security_file: false }
    );
}

#[test]
fn websocket_frames() {
    assert_eq!(websocket_ping(), "PING!!");
    assert_eq!(WebSocketCode::NormalClosure.code(), 1000);
    assert_eq!(WebSocketCode::BadPayload.code(), 1007);
    assert_eq!(WebSocketCode::InternalError.code(), 1011);
    assert!(matches!(classify_frame(Some(Frame::Text("hi".to_string()))), FrameStep::Deliver(s) if s == "hi"));
    assert!(matches!(classify_frame(Some(Frame::Binary(vec![1]))), FrameStep::Fail(WsError::NotAString(b)) if b == vec![1]));
    assert!(matches!(classify_frame(Some(Frame::Pong(vec![]))), FrameStep::Skip));
    assert!(matches!(classify_frame(Some(Frame::Close)), FrameStep::Fail(WsError::AlreadyClosed)));
    assert!(matches!(classify_frame(None), FrameStep::Fail(WsError::AlreadyClosed)));
}

#[test]
fn sibling_directory_is_one_to_one() {
    let d = SiblingDirectory::new(vec![
        ("a.example".to_string(), addr(1, 10419)),
        ("b.example".to_string(), addr(2, 10419)),
        ("c.example".to_string(), addr(1, 10419)),
    ]);
    let mut domains = d.domains();
    domains.sort();
    assert_eq!(domains, vec!["b.example".to_string(), "c.example".to_string()]);
    assert_eq!(d.server_name_of(addr(1, 10419)).map(|n| n.0), Some("c.example".to_string()));
    assert!(d.server_name_of(addr(3, 10419)).is_none());
    assert_eq!(d.check_sibling("b.example"), Ok(()));
    assert_eq!(d.check_sibling("z.example"), Err("z.example is not a sibling".to_string()));
}

#[test]
fn sibling_updates_keep_the_board_best_first() {
    let entry = |score: u16, name: &str| LeaderboardEntry { score, username: name.to_string() };
    let mut state = LeaderboardState::new(vec![], vec![entry(50, "a"), entry(30, "b")], vec![], 5);
    let u = HighscoreUpdate { difficulty: "normal".to_string(), username: "c".to_string(), score: 40 };
    assert!(matches!(apply_highscore_update(&mut state, u), Ok(Some(LeaderboardUpdate::Normal(_)))));
    assert_eq!(state.normal, vec![entry(50, "a"), entry(40, "c"), entry(30, "b")]);
    let u = HighscoreUpdate { difficulty: "normal".to_string(), username: "b".to_string(), score: 60 };
    assert!(matches!(apply_highscore_update(&mut state, u), Ok(Some(_))));
    assert_eq!(state.normal, vec![entry(60, "b"), entry(50, "a"), entry(40, "c")]);
    let u = HighscoreUpdate { difficulty: "normal".to_string(), username: "a".to_string(), score: 10 };
    assert!(matches!(apply_highscore_update(&mut state, u), Ok(None)));
    assert_eq!(state.normal, vec![entry(60, "b"), entry(50, "a"), entry(40, "c")]);
    assert!(state.easy.is_empty() && state.expert.is_empty());
}

#[test]
fn v6_siblings_are_told_apart_by_scope_and_flow() {
    let v6 = |scope_id: u32, flowinfo: u32| SocketAddress { ip: IpAddress::V6(1), port: 10419, flowinfo, scope_id };
    let d = SiblingDirectory::new(vec![("six.example".to_string(), v6(2, 0))]);
    assert_eq!(d.server_name_of(v6(2, 0)).map(|n| n.0), Some("six.example".to_string()));
    assert!(d.server_name_of(v6(3, 0)).is_none());
    assert!(d.server_name_of(v6(2, 7)).is_none());
    let scoped = v6(4, 9);
    assert_eq!(
        credentials_plan(true, &BindAddress::Network(scoped)),
        CredentialsPlan::Obtain(SocketAddress { port: 80, ..scoped })
    );
    let (p, _) = serve_plan(BindAddress::HTTP(IpAddress::V6(1)), false);
    assert!(matches!(p, ServePlan::Plain(a) if a.port == 80 && a.flowinfo == 0 && a.scope_id == 0));
}

#[test]
fn a_stored_score_is_offered_and_announced() {
    let entry = |score: u16, name: &str| LeaderboardEntry { score, username: name.to_string() };
    let mut state = LeaderboardState::new(vec![entry(9, "z")], vec![], vec![], 2);
    let out = after_score_stored(&mut state, Difficulty::Easy, entry(20, "ann"), false);
    assert_eq!(out.result, Err(AddLeaderboardEntryError::InternalError));
    assert!(out.update.is_none() && out.announcement.is_none());
    assert_eq!(state.easy, vec![entry(9, "z")]);
    let out = after_score_stored(&mut state, Difficulty::Easy, entry(20, "ann"), true);
    assert_eq!(out.result, Ok(()));
    assert!(matches!(out.update, Some(LeaderboardUpdate::Easy(ref b)) if *b == vec![entry(20, "ann"), entry(9, "z")]));
    let a = out.announcement.unwrap();
    assert_eq!((a.difficulty.as_str(), a.username.as_str(), a.score), ("easy", "ann", 20));
    let out = after_score_stored(&mut state, Difficulty::Easy, entry(5, "bob"), true);
    assert_eq!(out.result, Ok(()));
    assert!(out.update.is_none() && out.announcement.is_none());
    assert_eq!(state.easy, vec![entry(20, "ann"), entry(9, "z")]);
}
