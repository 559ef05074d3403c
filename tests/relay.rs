use signalling::protocol::{SessionId, Signal, UserId};
use signalling::relay::{Delivery, Relay, RouteError, Session};

fn uid(s: &str) -> UserId {
    UserId::new(s.to_string())
}

fn sid(s: &str) -> SessionId {
    SessionId::new(s.to_string())
}

fn unused() -> SessionId {
    sid("unused")
}

fn to(user: &str, signal: Signal) -> Option<Delivery> {
    Some(Delivery { to: uid(user), signal })
}

/// A relay with "A" hosting "S" and "B" joined as guest.
fn joined() -> Relay {
    let mut relay = Relay::new();
    relay.connect_with(uid("A")).unwrap();
    relay.connect_with(uid("B")).unwrap();
    relay.route(&uid("A"), Signal::SessionNew, sid("S")).unwrap();
    relay.route(&uid("B"), Signal::SessionJoin(sid("S")), unused()).unwrap();
    relay
}

#[test]
fn ids_keep_their_text() {
    assert_eq!(UserId::new("u-1".to_string()).value(), "u-1");
    assert_eq!(SessionId::new("s-1".to_string()).value(), "s-1");
    assert!(uid("x").same(&uid("x")));
    assert!(!sid("x").same(&sid("y")));
    assert_eq!(sid("z").duplicate(), sid("z"));
}

#[test]
fn connect_announces_identity() {
    let mut relay = Relay::new();
    let d = relay.connect_with(uid("A")).unwrap();
    assert_eq!(d, Delivery { to: uid("A"), signal: Signal::NewUser(uid("A")) });
    assert!(relay.has_user(&uid("A")));
    assert_eq!(relay.user(&uid("A")).unwrap().session_id, None);
}

#[test]
fn connect_twice_with_one_id_is_refused() {
    let mut relay = Relay::new();
    relay.connect_with(uid("A")).unwrap();
    assert_eq!(relay.connect_with(uid("A")), Err(RouteError::IdTaken));
}

#[test]
fn random_ids_are_uuids_and_differ() {
    let mut relay = Relay::new();
    let a = relay.connect().unwrap();
    let b = relay.connect().unwrap();
    assert_eq!(a.to.value().len(), 36);
    assert_eq!(a.signal, Signal::NewUser(a.to.clone()));
    assert_ne!(a.to, b.to);
    assert!(relay.has_user(&a.to) && relay.has_user(&b.to));
}

#[test]
fn session_new_reports_and_records_host() {
    let mut relay = Relay::new();
    relay.connect_with(uid("A")).unwrap();
    let r = relay.route(&uid("A"), Signal::SessionNew, sid("S")).unwrap();
    assert_eq!(r, to("A", Signal::SessionCreated(sid("S"))));
    assert_eq!(relay.session(&sid("S")), Some(&Session { host: uid("A"), guest: None }));
    assert_eq!(relay.user(&uid("A")).unwrap().session_id, Some(sid("S")));
}

#[test]
fn session_new_through_handle_draws_a_uuid() {
    let mut relay = Relay::new();
    relay.connect_with(uid("A")).unwrap();
    relay.connect_with(uid("B")).unwrap();
    let a = relay.handle(&uid("A"), Signal::SessionNew).unwrap().unwrap();
    let b = relay.handle(&uid("B"), Signal::SessionNew).unwrap().unwrap();
    let (sa, sb) = match (a.signal, b.signal) {
        (Signal::SessionCreated(x), Signal::SessionCreated(y)) => (x, y),
        other => panic!("unexpected {:?}", other),
    };
    assert_eq!(sa.value().len(), 36);
    assert_ne!(sa, sb);
    assert_eq!(relay.session(&sa).unwrap().host, uid("A"));
    assert_eq!(relay.session(&sb).unwrap().host, uid("B"));
}

#[test]
fn session_ids_from_distinct_users_are_unique() {
    let mut relay = Relay::new();
    let mut issued: Vec<SessionId> = Vec::new();
    for (u, s) in [("A", "S1"), ("B", "S2"), ("C", "S3")] {
        relay.connect_with(uid(u)).unwrap();
        let d = relay.route(&uid(u), Signal::SessionNew, sid(s)).unwrap().unwrap();
        match d.signal {
            Signal::SessionCreated(id) => {
                assert!(!issued.contains(&id));
                assert_eq!(relay.session(&id).unwrap().host, uid(u));
                issued.push(id);
            }
            other => panic!("unexpected {:?}", other),
        }
    }
    assert_eq!(issued.len(), 3);
}

#[test]
fn session_ids_stay_unique_across_other_messages() {
    let mut relay = Relay::new();
    relay.connect_with(uid("A")).unwrap();
    relay.connect_with(uid("B")).unwrap();
    relay.route(&uid("A"), Signal::SessionNew, sid("S1")).unwrap();
    relay.route(&uid("B"), Signal::SessionJoin(sid("S1")), unused()).unwrap();
    relay.route(&uid("B"), Signal::VideoOffer(sid("S1"), "o".to_string()), unused()).unwrap();
    let d = relay.route(&uid("B"), Signal::SessionNew, sid("S2")).unwrap();
    assert_eq!(d, to("B", Signal::SessionCreated(sid("S2"))));
    assert_eq!(relay.route(&uid("B"), Signal::SessionNew, sid("S1")), Err(RouteError::IdTaken));
    assert_eq!(relay.session(&sid("S1")).unwrap().host, uid("A"));
    assert_eq!(relay.session(&sid("S2")).unwrap().host, uid("B"));
}

#[test]
fn session_new_with_taken_id_is_refused() {
    let mut relay = joined();
    assert_eq!(relay.route(&uid("B"), Signal::SessionNew, sid("S")), Err(RouteError::IdTaken));
    assert_eq!(relay.session(&sid("S")).unwrap().host, uid("A"));
}

#[test]
fn join_unknown_session_answers_error() {
    let mut relay = Relay::new();
    relay.connect_with(uid("B")).unwrap();
    let r = relay.route(&uid("B"), Signal::SessionJoin(sid("nope")), unused());
    assert_eq!(r, Ok(to("B", Signal::SessionJoinError(sid("nope")))));
    assert_eq!(relay.session(&sid("nope")), None);
    assert_eq!(relay.user(&uid("B")).unwrap().session_id, None);
}

#[test]
fn join_sets_guest() {
    let mut relay = Relay::new();
    relay.connect_with(uid("A")).unwrap();
    relay.connect_with(uid("B")).unwrap();
    relay.route(&uid("A"), Signal::SessionNew, sid("S")).unwrap();
    let r = relay.route(&uid("B"), Signal::SessionJoin(sid("S")), unused());
    assert_eq!(r, Ok(to("B", Signal::SessionJoinSuccess(sid("S")))));
    assert_eq!(relay.session(&sid("S")), Some(&Session { host: uid("A"), guest: Some(uid("B")) }));
    assert_eq!(relay.user(&uid("B")).unwrap().session_id, None);
    assert_eq!(relay.user(&uid("A")).unwrap().session_id, Some(sid("S")));
}

#[test]
fn second_join_replaces_guest() {
    let mut relay = joined();
    relay.connect_with(uid("C")).unwrap();
    let r = relay.route(&uid("C"), Signal::SessionJoin(sid("S")), unused());
    assert_eq!(r, Ok(to("C", Signal::SessionJoinSuccess(sid("S")))));
    assert_eq!(relay.session(&sid("S")), Some(&Session { host: uid("A"), guest: Some(uid("C")) }));
}

#[test]
fn offer_goes_to_host_unchanged() {
    let mut relay = joined();
    let sdp = "v=0\r\no=- 42 2 IN IP4 127.0.0.1\r\n\"quoted\"".to_string();
    let r = relay.route(&uid("B"), Signal::VideoOffer(sid("S"), sdp.clone()), unused());
    assert_eq!(r, Ok(to("A", Signal::VideoOffer(sid("S"), sdp))));
}

#[test]
fn offer_from_outsider_still_goes_to_host() {
    let mut relay = joined();
    relay.connect_with(uid("C")).unwrap();
    let r = relay.route(&uid("C"), Signal::VideoOffer(sid("S"), "o".to_string()), unused());
    assert_eq!(r, Ok(to("A", Signal::VideoOffer(sid("S"), "o".to_string()))));
}

#[test]
fn offer_for_unknown_session_is_refused() {
    let mut relay = joined();
    let r = relay.route(&uid("B"), Signal::VideoOffer(sid("T"), "o".to_string()), unused());
    assert_eq!(r, Err(RouteError::UnknownSession));
}

#[test]
fn answer_goes_to_guest() {
    let mut relay = joined();
    let r = relay.route(&uid("A"), Signal::VideoAnswer(sid("S"), "ans".to_string()), unused());
    assert_eq!(r, Ok(to("B", Signal::VideoAnswer(sid("S"), "ans".to_string()))));
}

#[test]
fn answer_without_guest_is_refused() {
    let mut relay = Relay::new();
    relay.connect_with(uid("A")).unwrap();
    relay.route(&uid("A"), Signal::SessionNew, sid("S")).unwrap();
    let r = relay.route(&uid("A"), Signal::VideoAnswer(sid("S"), "ans".to_string()), unused());
    assert_eq!(r, Err(RouteError::NoGuest));
}

#[test]
fn candidate_goes_to_other_party() {
    let mut relay = joined();
    let c = "{\"candidate\":\"c1\",\"sdp_mid\":\"0\",\"sdp_m_line_index\":0}".to_string();
    let from_host = relay.route(&uid("A"), Signal::ICECandidate(sid("S"), c.clone()), unused());
    assert_eq!(from_host, Ok(to("B", Signal::ICECandidate(sid("S"), c.clone()))));
    let from_guest = relay.route(&uid("B"), Signal::ICECandidate(sid("S"), c.clone()), unused());
    assert_eq!(from_guest, Ok(to("A", Signal::ICECandidate(sid("S"), c))));
}

#[test]
fn candidate_from_outsider_is_refused() {
    let mut relay = joined();
    relay.connect_with(uid("C")).unwrap();
    let r = relay.route(&uid("C"), Signal::ICECandidate(sid("S"), "c".to_string()), unused());
    assert_eq!(r, Err(RouteError::NotParticipant));
}

#[test]
fn candidate_from_host_without_guest_is_refused() {
    let mut relay = Relay::new();
    relay.connect_with(uid("A")).unwrap();
    relay.route(&uid("A"), Signal::SessionNew, sid("S")).unwrap();
    let r = relay.route(&uid("A"), Signal::ICECandidate(sid("S"), "c".to_string()), unused());
    assert_eq!(r, Err(RouteError::NoGuest));
}

#[test]
fn unknown_sender_is_refused() {
    let mut relay = joined();
    let r = relay.route(&uid("Z"), Signal::SessionNew, sid("T"));
    assert_eq!(r, Err(RouteError::UnknownSender));
    assert_eq!(relay.session(&sid("T")), None);
}

#[test]
fn informational_signals_go_nowhere() {
    let mut relay = joined();
    let r = relay.route(&uid("A"), Signal::ICEError(sid("S"), "failed".to_string()), unused());
    assert_eq!(r, Ok(None));
    let r = relay.route(&uid("A"), Signal::NewUser(uid("A")), unused());
    assert_eq!(r, Ok(None));
}

#[test]
fn server_only_signals_are_refused() {
    let mut relay = joined();
    for s in [
        Signal::SessionCreated(sid("S")),
        Signal::SessionJoinSuccess(sid("S")),
        Signal::SessionJoinError(sid("S")),
    ] {
        assert_eq!(relay.route(&uid("A"), s, unused()), Err(RouteError::Unexpected));
    }
}

#[test]
fn end_to_end_exchange() {
    let mut relay = Relay::new();
    assert_eq!(relay.connect_with(uid("A")), Ok(Delivery { to: uid("A"), signal: Signal::NewUser(uid("A")) }));
    assert_eq!(
        relay.route(&uid("A"), Signal::SessionNew, sid("S")),
        Ok(to("A", Signal::SessionCreated(sid("S"))))
    );
    assert_eq!(relay.connect_with(uid("B")), Ok(Delivery { to: uid("B"), signal: Signal::NewUser(uid("B")) }));
    assert_eq!(
        relay.route(&uid("B"), Signal::SessionJoin(sid("S")), unused()),
        Ok(to("B", Signal::SessionJoinSuccess(sid("S"))))
    );
    assert_eq!(
        relay.route(&uid("B"), Signal::VideoOffer(sid("S"), "sdp-a".to_string()), unused()),
        Ok(to("A", Signal::VideoOffer(sid("S"), "sdp-a".to_string())))
    );
    assert_eq!(
        relay.route(&uid("A"), Signal::VideoAnswer(sid("S"), "sdp-b".to_string()), unused()),
        Ok(to("B", Signal::VideoAnswer(sid("S"), "sdp-b".to_string())))
    );
    assert_eq!(
        relay.route(&uid("A"), Signal::ICECandidate(sid("S"), "c1".to_string()), unused()),
        Ok(to("B", Signal::ICECandidate(sid("S"), "c1".to_string())))
    );
    assert_eq!(
        relay.route(&uid("B"), Signal::ICECandidate(sid("S"), "c1".to_string()), unused()),
        Ok(to("A", Signal::ICECandidate(sid("S"), "c1".to_string())))
    );
}

#[test]
fn host_leaving_closes_session() {
    let mut relay = joined();
    relay.disconnect(&uid("A"));
    assert!(!relay.has_user(&uid("A")));
    assert_eq!(relay.session(&sid("S")), None);
    let offer = relay.route(&uid("B"), Signal::VideoOffer(sid("S"), "o".to_string()), unused());
    assert_eq!(offer, Err(RouteError::UnknownSession));
    let cand = relay.route(&uid("B"), Signal::ICECandidate(sid("S"), "c".to_string()), unused());
    assert_eq!(cand, Err(RouteError::UnknownSession));
    let answer = relay.route(&uid("B"), Signal::VideoAnswer(sid("S"), "a".to_string()), unused());
    assert_eq!(answer, Err(RouteError::UnknownSession));
    let join = relay.route(&uid("B"), Signal::SessionJoin(sid("S")), unused());
    assert_eq!(join, Ok(to("B", Signal::SessionJoinError(sid("S")))));
    let again = relay.route(&uid("A"), Signal::SessionNew, sid("S2"));
    assert_eq!(again, Err(RouteError::UnknownSender));
}

#[test]
fn guest_leaving_closes_session_and_keeps_others() {
    let mut relay = joined();
    relay.connect_with(uid("C")).unwrap();
    relay.route(&uid("C"), Signal::SessionNew, sid("T")).unwrap();
    relay.disconnect(&uid("B"));
    assert_eq!(relay.session(&sid("S")), None);
    assert_eq!(relay.session(&sid("T")), Some(&Session { host: uid("C"), guest: None }));
    assert!(relay.has_user(&uid("A")) && relay.has_user(&uid("C")));
}

#[test]
fn disconnect_of_unknown_user_changes_nothing() {
    let mut relay = joined();
    relay.disconnect(&uid("Z"));
    assert_eq!(relay.session(&sid("S")), Some(&Session { host: uid("A"), guest: Some(uid("B")) }));
    assert!(relay.has_user(&uid("A")) && relay.has_user(&uid("B")));
}
