use bola_api::multiplayer::{Multiplayer, RoomCode};
use bola_api::webrtc::{
    ExistingSessionError, JoinSessionError, OfferRoute, RandomID, SDPOffer, SendOffersError,
};

fn offers(texts: &[&str]) -> Vec<SDPOffer> {
    texts.iter().map(|t| SDPOffer::from(t.to_string())).collect()
}

fn routes(r: &[OfferRoute]) -> Vec<(usize, usize, String)> {
    r.iter().map(|o| (o.peer, o.answer_index, o.offer.0.clone())).collect()
}

fn refusal(r: Result<(Vec<OfferRoute>, usize), (SendOffersError, Vec<SDPOffer>)>) -> (SendOffersError, Vec<String>) {
    match r {
        Err((e, back)) => (e, back.into_iter().map(|o| o.0).collect()),
        Ok(_) => panic!("expected a refusal"),
    }
}

fn code(n: u16) -> RoomCode {
    RoomCode::try_from(n).unwrap()
}

#[test]
fn zero_is_no_room_code() {
    assert!(RoomCode::try_from(0).is_err());
    assert_eq!(code(4321).get(), 4321);
    assert_eq!(code(4321).to_string(), "4321");
    assert_eq!(code(7).to_string(), "7");
}

#[test]
fn drawn_codes_have_four_digits() {
    for _ in 0..200 {
        let c = RoomCode::generate().get();
        assert!((1000..=9999).contains(&c));
    }
}

#[test]
fn hosting_twice_is_refused() {
    let mut m = Multiplayer::new();
    assert_eq!(m.host_session(code(1234), 4), Ok(()));
    assert_eq!(m.host_session(code(1234), 2), Err(ExistingSessionError));
    assert_eq!(m.join_session(&code(1234)), Ok(1));
}

#[test]
fn joining_fills_a_room() {
    let mut m = Multiplayer::new();
    m.host_session(code(5000), 3).unwrap();
    assert_eq!(m.join_session(&code(5000)), Ok(1));
    assert_eq!(
        refusal(m.send_sdp_offers(&code(5000), offers(&["x", "y"]))),
        (SendOffersError::WrongOfferCount, vec!["x".to_string(), "y".to_string()])
    );
    let (r, joiner) = m.send_sdp_offers(&code(5000), offers(&["to-host"])).ok().unwrap();
    assert_eq!(joiner, 1);
    assert_eq!(routes(&r), vec![(0, 0, "to-host".to_string())]);
    assert_eq!(m.join_session(&code(5000)), Ok(2));
    let (r, joiner) = m.send_sdp_offers(&code(5000), offers(&["a", "b"])).ok().unwrap();
    assert_eq!(joiner, 2);
    assert_eq!(routes(&r), vec![(0, 0, "a".to_string()), (1, 1, "b".to_string())]);
    assert_eq!(m.join_session(&code(5000)), Err(JoinSessionError::Full));
    assert_eq!(
        refusal(m.send_sdp_offers(&code(5000), offers(&["p", "q", "r"]))),
        (SendOffersError::Join(JoinSessionError::Full), vec!["p".to_string(), "q".to_string(), "r".to_string()])
    );
}

#[test]
fn closed_or_unknown_rooms_are_not_found() {
    let mut m = Multiplayer::new();
    assert_eq!(m.join_session(&code(1111)), Err(JoinSessionError::NotFound));
    m.host_session(code(1111), 2).unwrap();
    m.end_session(&code(1111));
    assert_eq!(m.join_session(&code(1111)), Err(JoinSessionError::NotFound));
    assert_eq!(
        refusal(m.send_sdp_offers(&code(1111), offers(&["o"]))),
        (SendOffersError::Join(JoinSessionError::NotFound), vec!["o".to_string()])
    );
}

#[test]
fn a_room_for_one_is_full_at_once() {
    let mut m = Multiplayer::new();
    m.host_session(code(2222), 1).unwrap();
    assert_eq!(m.join_session(&code(2222)), Err(JoinSessionError::Full));
}

#[test]
fn random_rooms_get_distinct_codes() {
    let mut m = Multiplayer::new();
    let a = m.host_session_random_id(4).unwrap();
    let b = m.host_session_random_id(4).unwrap();
    assert_ne!(a, b);
    assert!((1000..=9999).contains(&a.get()));
    assert_eq!(m.join_session(&a), Ok(1));
    assert_eq!(m.join_session(&b), Ok(1));
}
