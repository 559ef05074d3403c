use vstd::prelude::*;
use crate::protocol::SignalV;
use crate::relay::{
    consistent, deliver, departed, step, DeliveryV, OutcomeV, RelayV, RouteError, SessionV,
};

verus! {

/// The session identifier that an outcome announces as created, if any.
pub open spec fn created_id(o: OutcomeV) -> Option<Seq<char>> {
    match o {
        Ok(Some(DeliveryV { to: _, signal: SignalV::SessionCreated(id) })) => Some(id),
        _ => None,
    }
}

/// Routes each `(sender, message, drawn identifier)` in turn, giving the
/// final state and, for each message, the session identifier it was handed
/// back as created, if any.
pub open spec fn run(s: RelayV, msgs: Seq<(Seq<char>, SignalV, Seq<char>)>) -> (
    RelayV,
    Seq<Option<Seq<char>>>,
)
    decreases msgs.len(),
{
    if msgs.len() == 0 {
        (s, Seq::empty())
    } else {
        let (t, ids) = run(s, msgs.drop_last());
        let (u, m, f) = msgs.last();
        let (t2, o) = step(t, u, m, f);
        (t2, ids.push(created_id(o)))
    }
}

/// One routing step removes no session and changes no session's host; a
/// session it announces as created is new, and hosted by the sender.
pub proof fn lemma_step_keeps_hosts(s: RelayV, sender: Seq<char>, signal: SignalV, fresh: Seq<char>)
    ensures
        ({
            let (t, o) = step(s, sender, signal, fresh);
            &&& forall|k: Seq<char>| #[trigger] s.sessions.contains_key(k) ==> t.sessions.contains_key(k)
                && t.sessions[k].host == s.sessions[k].host
            &&& created_id(o) matches Some(id) ==> {
                &&& signal is SessionNew
                &&& id == fresh
                &&& !s.sessions.contains_key(id)
                &&& t.sessions.contains_key(id)
                &&& t.sessions[id].host == sender
            }
        }),
{
}

/// Over any run of messages from any users, every session identifier handed
/// back as created is new and distinct from every other one handed back, and
/// the session it names is still there, hosted by the user who asked for it.
/// No session that existed before is removed or given another host.
pub proof fn lemma_session_ids_unique(s: RelayV, msgs: Seq<(Seq<char>, SignalV, Seq<char>)>)
    ensures
        run(s, msgs).1.len() == msgs.len(),
        forall|i: int, j: int|
            0 <= i < j < msgs.len() && (#[trigger] run(s, msgs).1[i]) is Some
                && (#[trigger] run(s, msgs).1[j]) is Some
                ==> run(s, msgs).1[i] != run(s, msgs).1[j],
        forall|i: int|
            #![trigger run(s, msgs).1[i]]
            0 <= i < msgs.len() && run(s, msgs).1[i] is Some ==> {
                let id = run(s, msgs).1[i]->Some_0;
                &&& msgs[i].1 is SessionNew
                &&& !s.sessions.contains_key(id)
                &&& run(s, msgs).0.sessions.contains_key(id)
                &&& run(s, msgs).0.sessions[id].host == msgs[i].0
            },
        forall|k: Seq<char>|
            #[trigger] s.sessions.contains_key(k) ==> run(s, msgs).0.sessions.contains_key(k)
                && run(s, msgs).0.sessions[k].host == s.sessions[k].host,
    decreases msgs.len(),
{
    if msgs.len() > 0 {
        let prefix = msgs.drop_last();
        lemma_session_ids_unique(s, prefix);
        let (t, ids) = run(s, prefix);
        let (u, m, f) = msgs.last();
        let (t2, o) = step(t, u, m, f);
        lemma_step_keeps_hosts(t, u, m, f);
        let all = run(s, msgs).1;
        assert(all == ids.push(created_id(o)));
        assert forall|i: int| 0 <= i < prefix.len() implies #[trigger] msgs[i] == prefix[i] by {}
        assert forall|i: int, j: int|
            0 <= i < j < msgs.len() && (#[trigger] all[i]) is Some && (#[trigger] all[j]) is Some
            implies all[i] != all[j] by {
            if j == msgs.len() - 1 {
                assert(all[i] == ids[i]);
                assert(t.sessions.contains_key(ids[i]->Some_0));
            } else {
                assert(all[i] == ids[i] && all[j] == ids[j]);
            }
        }
        assert forall|i: int|
            #![trigger all[i]]
            0 <= i < msgs.len() && all[i] is Some implies {
                let id = all[i]->Some_0;
                &&& msgs[i].1 is SessionNew
                &&& !s.sessions.contains_key(id)
                &&& t2.sessions.contains_key(id)
                &&& t2.sessions[id].host == msgs[i].0
            } by {
            if i < msgs.len() - 1 {
                assert(all[i] == ids[i]);
                assert(t.sessions.contains_key(ids[i]->Some_0));
            } else {
                if s.sessions.contains_key(f) {
                    assert(t.sessions.contains_key(f));
                }
            }
        }
        assert forall|k: Seq<char>| #[trigger] s.sessions.contains_key(k) implies t2.sessions.contains_key(k)
            && t2.sessions[k].host == s.sessions[k].host by {
            assert(t.sessions.contains_key(k));
        }
    }
}

/// While every session's participants are connected, no message is lost
/// for want of its addressee.
pub proof fn lemma_destination_connected(s: RelayV, user: Seq<char>, signal: SignalV, fresh: Seq<char>)
    requires
        consistent(s),
    ensures
        step(s, user, signal, fresh).1 != Err::<Option<DeliveryV>, RouteError>(
            RouteError::UnknownDestination,
        ),
{
    match signal.session() {
        Some(id) => if s.sessions.contains_key(id) {
            assert(s.users.contains_key(s.sessions[id].host));
        },
        None => {},
    }
}

/// Joining a session that does not exist answers the requester with
/// `SessionJoinError` for that identifier and changes nothing.
pub proof fn lemma_join_unknown(s: RelayV, user: Seq<char>, id: Seq<char>, fresh: Seq<char>)
    requires
        s.users.contains_key(user),
        !s.sessions.contains_key(id),
    ensures
        step(s, user, SignalV::SessionJoin(id), fresh) == (s, deliver(user, SignalV::SessionJoinError(id))),
{
}

/// Joining an existing session makes the requester its guest, keeps its
/// host, leaves the users as they were, and answers the requester with
/// `SessionJoinSuccess`.
pub proof fn lemma_join_sets_guest(s: RelayV, user: Seq<char>, id: Seq<char>, fresh: Seq<char>)
    requires
        s.users.contains_key(user),
        s.sessions.contains_key(id),
    ensures
        ({
            let (t, o) = step(s, user, SignalV::SessionJoin(id), fresh);
            &&& t.sessions == s.sessions.insert(id, SessionV { host: s.sessions[id].host, guest: Some(user) })
            &&& t.users == s.users
            &&& o == deliver(user, SignalV::SessionJoinSuccess(id))
        }),
{
}

/// A second join of the same session replaces the guest with the second
/// requester; the host stays.
pub proof fn lemma_second_join_replaces_guest(
    s: RelayV,
    first: Seq<char>,
    second: Seq<char>,
    id: Seq<char>,
    fresh: Seq<char>,
)
    requires
        s.users.contains_key(first),
        s.users.contains_key(second),
        s.sessions.contains_key(id),
    ensures
        ({
            let (t, _) = step(s, first, SignalV::SessionJoin(id), fresh);
            let (t2, o) = step(t, second, SignalV::SessionJoin(id), fresh);
            &&& t2.sessions[id] == SessionV { host: s.sessions[id].host, guest: Some(second) }
            &&& o == deliver(second, SignalV::SessionJoinSuccess(id))
        }),
{
    let (t, _) = step(s, first, SignalV::SessionJoin(id), fresh);
    assert(t.users.contains_key(second));
    assert(t.sessions.contains_key(id));
}

/// A video offer for an existing session, from any connected user, goes to
/// the session's host with its payload unchanged, and changes nothing.
pub proof fn lemma_offer_to_host(
    s: RelayV,
    user: Seq<char>,
    id: Seq<char>,
    sdp: Seq<char>,
    fresh: Seq<char>,
)
    requires
        consistent(s),
        s.users.contains_key(user),
        s.sessions.contains_key(id),
    ensures
        step(s, user, SignalV::VideoOffer(id, sdp), fresh) == (
            s,
            deliver(s.sessions[id].host, SignalV::VideoOffer(id, sdp)),
        ),
{
}

/// A connectivity candidate goes from the host to the guest and from the
/// guest to the host, unchanged; from anyone else it is refused, and
/// nothing changes either way.
pub proof fn lemma_candidate_to_other_party(
    s: RelayV,
    user: Seq<char>,
    id: Seq<char>,
    cand: Seq<char>,
    fresh: Seq<char>,
)
    requires
        consistent(s),
        s.users.contains_key(user),
        s.sessions.contains_key(id),
    ensures
        ({
            let session = s.sessions[id];
            let (t, o) = step(s, user, SignalV::ICECandidate(id, cand), fresh);
            &&& t == s
            &&& (user == session.host && session.guest is Some) ==> o == deliver(
                session.guest->Some_0,
                SignalV::ICECandidate(id, cand),
            )
            &&& (user == session.host && session.guest is None) ==> o == Err::<Option<DeliveryV>, RouteError>(
                RouteError::NoGuest,
            )
            &&& (user != session.host && session.guest == Some(user)) ==> o == deliver(
                session.host,
                SignalV::ICECandidate(id, cand),
            )
            &&& (user != session.host && session.guest != Some(user)) ==> o == Err::<Option<DeliveryV>, RouteError>(
                RouteError::NotParticipant,
            )
        }),
{
}

/// Once the host of a session has left, a message that another user sends
/// about that session changes nothing: a join is answered with
/// `SessionJoinError`, an offer, answer or candidate is refused as naming an
/// unknown session.
pub proof fn lemma_host_left(
    s: RelayV,
    host: Seq<char>,
    other: Seq<char>,
    id: Seq<char>,
    signal: SignalV,
    fresh: Seq<char>,
)
    requires
        s.sessions.contains_key(id),
        s.sessions[id].host == host,
        s.users.contains_key(other),
        other != host,
        signal.session() == Some(id),
        signal is SessionJoin || signal is VideoOffer || signal is VideoAnswer || signal is ICECandidate,
    ensures
        ({
            let t = departed(s, host);
            let (t2, o) = step(t, other, signal, fresh);
            &&& !t.sessions.contains_key(id)
            &&& t2 == t
            &&& signal is SessionJoin ==> o == deliver(other, SignalV::SessionJoinError(id))
            &&& !(signal is SessionJoin) ==> o == Err::<Option<DeliveryV>, RouteError>(
                RouteError::UnknownSession,
            )
        }),
{
    let t = departed(s, host);
    assert(t.users.contains_key(other));
    assert(!t.sessions.contains_key(id));
}

} // verus!
