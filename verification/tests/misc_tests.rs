use bola_api::alive;
use bola_api::config;
use bola_api::messaging::{JsonMessageStream, OwnedWriteRequest};
use bola_api::neo_api::NeoApiConfig;
use bola_api::record_alive;
use bola_api::record_alive::{alive_from, ChannelState};
use bola_api::tournament::{tournament_week_at, week_step, Tournament, TournamentData, WeekStep, WEEK_SECS};
use bola_api::utils::{immut_leak, mut_leak, MaybeOwned, Ref};
use std::time::{Duration, SystemTime, UNIX_EPOCH};

#[test]
fn configuration_defaults() {
    assert_eq!(config::stderr_log(), "stderr.log");
    assert_eq!(config::routing_log(), "routing.log");
    assert_eq!(config::suspicious_security_log(), "security.log");
    assert_eq!(config::bola_profiles_table(), "bola_profiles");
    assert_eq!(config::token_duration(), Duration::from_secs(2592000));
    assert_eq!(config::network_port(), 10419);
    assert_eq!(config::stylesheet_path(), "manglemix.css");
    assert_eq!(config::invalid_path(), "invalid.html");
    assert_eq!(config::success_path(), "success.html");
    assert_eq!(config::late_path(), "late.html");
    assert_eq!(config::certs_path(), "https/certs.pem");
    assert_eq!(config::key_path(), "https/key.pem");
    assert_eq!(config::default_lobby_size(), 4);
    assert_eq!(config::ws_ping_delay(), Duration::from_secs(45));
    assert_eq!(config::LEADERBOARD_SPAN, 5);
}

#[test]
fn tournament_weeks_are_one_week_long() {
    assert_eq!(
        tournament_week_at(0, 100),
        TournamentData { week: 0, start_time: 100, end_time: 100 + WEEK_SECS }
    );
    assert_eq!(
        tournament_week_at(3 * WEEK_SECS + 5, 100),
        TournamentData { week: 3, start_time: 100 + 3 * WEEK_SECS, end_time: 100 + 4 * WEEK_SECS }
    );
}

#[test]
fn current_tournament_week_counts_from_the_start() {
    let now = SystemTime::now().duration_since(UNIX_EPOCH).unwrap().as_secs();
    let start = now - 2 * WEEK_SECS - 10;
    let t = Tournament::new(Duration::from_secs(start));
    let d = t.get_tournament_week().unwrap();
    assert_eq!(d.week, 2);
    assert_eq!(d.start_time, start + 2 * WEEK_SECS);
    assert_eq!(d.end_time, start + 3 * WEEK_SECS);
}

#[test]
fn future_tournament_has_no_week() {
    let now = SystemTime::now().duration_since(UNIX_EPOCH).unwrap().as_secs();
    let t = Tournament::new(Duration::from_secs(now + 3600));
    assert_eq!(t.get_tournament_week(), None);
}

#[test]
fn leaked_values_keep_their_value() {
    let r: &i32 = immut_leak(5);
    assert_eq!(*r, 5);
    let m: &mut Vec<u8> = mut_leak(vec![1]);
    m.push(2);
    assert_eq!(*m, vec![1, 2]);
    let x = 7;
    assert_eq!(*Ref::Borrowed(&x).get_ref(), 7);
    assert_eq!(*Ref::Owned(8).get_ref(), 8);
    assert_eq!(*MaybeOwned::Borrowed(&x).get_ref(), 7);
    assert_eq!(*MaybeOwned::Owned(9).get_ref(), 9);
}

#[test]
fn api_config_keeps_handler_and_delay() {
    let c = NeoApiConfig::new(Duration::from_secs(45), "handler");
    assert_eq!(*c.get_handler(), "handler");
    assert_eq!(c.get_ping_delay(), Duration::from_secs(45));
}

#[test]
fn json_stream_wraps_its_stream() {
    let s = JsonMessageStream::from(3u8);
    assert_eq!(s.0, 3);
    assert_eq!(s.into_inner(), 3);
    let w = OwnedWriteRequest { namespace: "n".to_string(), name: "a".to_string(), data: vec![1] };
    assert_eq!(w.data, vec![1]);
}

#[test]
fn tracker_sees_the_last_flag_dropped() {
    let (flag, tracker) = record_alive::aliveness_pair();
    let copy = flag.clone();
    assert!(tracker.is_alive());
    drop(flag);
    assert!(tracker.is_alive());
    drop(copy);
    assert!(!tracker.is_alive());
    tracker.wait_for_death();
    assert!(!tracker.clone().is_alive());
}

#[test]
fn waiting_tracker_returns_once_the_flag_is_gone() {
    let (flag, tracker) = alive::aliveness_pair();
    drop(flag.clone());
    drop(flag);
    tracker.wait_for_death();
    tracker.wait_for_death();
}

#[test]
fn alive_from_channel_state() {
    assert!(alive_from(ChannelState::Empty));
    assert!(alive_from(ChannelState::Message));
    assert!(!alive_from(ChannelState::Disconnected));
}

#[test]
fn equal_starts_give_equal_weeks() {
    let now = SystemTime::now().duration_since(UNIX_EPOCH).unwrap().as_secs();
    let start = Duration::from_secs(now - 5 * WEEK_SECS - 3600);
    let a = Tournament::new(start);
    let b = Tournament::new(start);
    let c = a.clone();
    let (wa, wb, wc) = (a.get_tournament_week(), b.get_tournament_week(), c.get_tournament_week());
    assert_eq!(wa, wb);
    assert_eq!(wa, wc);
    assert_eq!(wa.unwrap().week, 5);
}

#[test]
fn a_start_beyond_the_platform_has_no_week() {
    let t = Tournament::new(Duration::from_secs(u64::MAX));
    assert_eq!(t.get_tournament_week(), None);
}

#[test]
fn one_look_at_the_clock() {
    assert_eq!(
        week_step(Some(2 * WEEK_SECS + 10), 0, 100),
        WeekStep::Done(Some(TournamentData { week: 2, start_time: 100 + 2 * WEEK_SECS, end_time: 100 + 3 * WEEK_SECS }))
    );
    assert_eq!(week_step(Some(0), 5, 7), WeekStep::Done(Some(TournamentData { week: 0, start_time: 7, end_time: 7 + WEEK_SECS })));
    assert_eq!(week_step(None, 0, 100), WeekStep::Retry);
    assert_eq!(week_step(None, 1, 100), WeekStep::Done(None));
    assert_eq!(week_step(None, 30, 100), WeekStep::Done(None));
    assert_eq!(week_step(Some(u64::MAX), 0, 0), WeekStep::Done(None));
    let last_week = u64::MAX / WEEK_SECS - 1;
    let e = last_week * WEEK_SECS;
    let end = (last_week + 1) * WEEK_SECS;
    assert_eq!(
        week_step(Some(e), 0, u64::MAX - end),
        WeekStep::Done(Some(TournamentData { week: last_week, start_time: e + (u64::MAX - end), end_time: u64::MAX }))
    );
    assert_eq!(week_step(Some(e), 0, u64::MAX - end + 1), WeekStep::Done(None));
}
