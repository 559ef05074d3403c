use vstd::prelude::*;
use crate::protocol::{view_opt, SessionId, Signal, SignalV, UserId};
use crate::registry::Registry;

verus! {

/// A connected user and the session it last created.
#[derive(Debug, Clone, PartialEq, Eq)]
pub struct User {
    pub user_id: UserId,
    pub session_id: Option<SessionId>,
}

pub struct UserV {
    pub id: Seq<char>,
    pub session: Option<Seq<char>>,
}

impl View for User {
    type V = UserV;

    open spec fn view(&self) -> UserV {
        UserV { id: self.user_id@, session: view_opt(self.session_id) }
    }
}

/// A session: the user who created it and the user who joined it, if any.
#[derive(Debug, Clone, PartialEq, Eq)]
pub struct Session {
    pub host: UserId,
    pub guest: Option<UserId>,
}

pub struct SessionV {
    pub host: Seq<char>,
    pub guest: Option<Seq<char>>,
}

impl View for Session {
    type V = SessionV;

    open spec fn view(&self) -> SessionV {
        SessionV { host: self.host@, guest: view_opt(self.guest) }
    }
}

/// A message to be written to one user's connection.
#[derive(Debug, Clone, PartialEq, Eq)]
pub struct Delivery {
    pub to: UserId,
    pub signal: Signal,
}

pub struct DeliveryV {
    pub to: Seq<char>,
    pub signal: SignalV,
}

impl View for Delivery {
    type V = DeliveryV;

    open spec fn view(&self) -> DeliveryV {
        DeliveryV { to: self.to@, signal: self.signal@ }
    }
}

/// Why a message was not routed. None of these ends the connection.
#[derive(Debug, Clone, Copy, PartialEq, Eq, Structural)]
pub enum RouteError {
    /// The sender is not a connected user.
    UnknownSender,
    /// The message names a session that does not exist.
    UnknownSession,
    /// The message is for the guest of a session that nobody has joined.
    NoGuest,
    /// The sender is neither host nor guest of the session.
    NotParticipant,
    /// The user the message is for is no longer connected.
    UnknownDestination,
    /// The message is one that only the server sends.
    Unexpected,
    /// The identifier drawn for a new user or session is already in use.
    IdTaken,
}

/// The state of the relay: users and sessions, each keyed by identifier.
pub struct RelayV {
    pub users: Map<Seq<char>, UserV>,
    pub sessions: Map<Seq<char>, SessionV>,
}

pub type OutcomeV = Result<Option<DeliveryV>, RouteError>;

pub open spec fn outcome_view(r: Result<Option<Delivery>, RouteError>) -> OutcomeV {
    match r {
        Ok(Some(d)) => Ok(Some(d@)),
        Ok(None) => Ok(None),
        Err(e) => Err(e),
    }
}

pub open spec fn deliver(to: Seq<char>, signal: SignalV) -> OutcomeV {
    Ok(Some(DeliveryV { to, signal }))
}

/// Hands `signal` on to `dest`, if there is one and it is connected.
pub open spec fn forward(s: RelayV, dest: Option<Seq<char>>, signal: SignalV) -> OutcomeV {
    match dest {
        None => Err(RouteError::NoGuest),
        Some(d) => if s.users.contains_key(d) {
            deliver(d, signal)
        } else {
            Err(RouteError::UnknownDestination)
        },
    }
}

/// `s` with the current session of `user` set to `sid`.
pub open spec fn with_current(s: RelayV, user: Seq<char>, sid: Seq<char>) -> Map<Seq<char>, UserV> {
    s.users.insert(user, UserV { id: s.users[user].id, session: Some(sid) })
}

/// What the relay does with `signal` from `sender`: the next state and the
/// outcome. `fresh` is the identifier a new session gets.
pub open spec fn step(s: RelayV, sender: Seq<char>, signal: SignalV, fresh: Seq<char>) -> (RelayV, OutcomeV) {
    if !s.users.contains_key(sender) {
        (s, Err(RouteError::UnknownSender))
    } else {
        match signal {
            SignalV::SessionNew => if s.sessions.contains_key(fresh) {
                (s, Err(RouteError::IdTaken))
            } else {
                (
                    RelayV {
                        users: with_current(s, sender, fresh),
                        sessions: s.sessions.insert(fresh, SessionV { host: sender, guest: None }),
                    },
                    deliver(sender, SignalV::SessionCreated(fresh)),
                )
            },
            SignalV::SessionJoin(id) => if s.sessions.contains_key(id) {
                (
                    RelayV {
                        users: s.users,
                        sessions: s.sessions.insert(
                            id,
                            SessionV { host: s.sessions[id].host, guest: Some(sender) },
                        ),
                    },
                    deliver(sender, SignalV::SessionJoinSuccess(id)),
                )
            } else {
                (s, deliver(sender, SignalV::SessionJoinError(id)))
            },
            SignalV::VideoOffer(id, _) => if s.sessions.contains_key(id) {
                (s, forward(s, Some(s.sessions[id].host), signal))
            } else {
                (s, Err(RouteError::UnknownSession))
            },
            SignalV::VideoAnswer(id, _) => if s.sessions.contains_key(id) {
                (s, forward(s, s.sessions[id].guest, signal))
            } else {
                (s, Err(RouteError::UnknownSession))
            },
            SignalV::ICECandidate(id, _) => if !s.sessions.contains_key(id) {
                (s, Err(RouteError::UnknownSession))
            } else if sender == s.sessions[id].host {
                (s, forward(s, s.sessions[id].guest, signal))
            } else if s.sessions[id].guest == Some(sender) {
                (s, forward(s, Some(s.sessions[id].host), signal))
            } else {
                (s, Err(RouteError::NotParticipant))
            },
            SignalV::NewUser(_) => (s, Ok(None)),
            SignalV::ICEError(_, _) => (s, Ok(None)),
            _ => (s, Err(RouteError::Unexpected)),
        }
    }
}

/// Every session's host, and its guest if it has one, is a connected user.
pub open spec fn consistent(s: RelayV) -> bool {
    forall|k: Seq<char>| #[trigger] s.sessions.contains_key(k) ==> {
        &&& s.users.contains_key(s.sessions[k].host)
        &&& (s.sessions[k].guest matches Some(g) ==> s.users.contains_key(g))
    }
}

/// Routing a message keeps every session's participants connected.
pub proof fn lemma_step_consistent(s: RelayV, sender: Seq<char>, signal: SignalV, fresh: Seq<char>)
    requires
        consistent(s),
    ensures
        consistent(step(s, sender, signal, fresh).0),
{
    let t = step(s, sender, signal, fresh).0;
    assert forall|k: Seq<char>| #[trigger] t.sessions.contains_key(k) implies {
        &&& t.users.contains_key(t.sessions[k].host)
        &&& (t.sessions[k].guest matches Some(g) ==> t.users.contains_key(g))
    } by {
        if s.sessions.contains_key(k) {
            assert(s.users.contains_key(s.sessions[k].host));
        }
    }
}

/// Connecting a user keeps every session's participants connected.
pub proof fn lemma_arrived_consistent(s: RelayV, id: Seq<char>)
    requires
        consistent(s),
    ensures
        consistent(arrived(s, id).0),
{
    let t = arrived(s, id).0;
    assert forall|k: Seq<char>| #[trigger] t.sessions.contains_key(k) implies {
        &&& t.users.contains_key(t.sessions[k].host)
        &&& (t.sessions[k].guest matches Some(g) ==> t.users.contains_key(g))
    } by {
        assert(s.sessions.contains_key(k));
    }
}

/// Closing a user's sessions when it leaves keeps every remaining
/// session's participants connected.
pub proof fn lemma_departed_consistent(s: RelayV, user: Seq<char>)
    requires
        consistent(s),
    ensures
        consistent(departed(s, user)),
{
    let t = departed(s, user);
    assert forall|k: Seq<char>| #[trigger] t.sessions.contains_key(k) implies {
        &&& t.users.contains_key(t.sessions[k].host)
        &&& (t.sessions[k].guest matches Some(g) ==> t.users.contains_key(g))
    } by {
        assert(s.sessions.contains_key(k));
    }
}

/// Whether `user` is the host or the guest of `session`.
pub open spec fn involves(session: SessionV, user: Seq<char>) -> bool {
    session.host == user || session.guest == Some(user)
}

/// What remains once `user` has gone: the user, and every session it hosted
/// or joined, are removed.
pub open spec fn departed(s: RelayV, user: Seq<char>) -> RelayV {
    RelayV {
        users: s.users.remove(user),
        sessions: Map::new(
            |k: Seq<char>| s.sessions.contains_key(k) && !involves(s.sessions[k], user),
            |k: Seq<char>| s.sessions[k],
        ),
    }
}

/// What connecting a user with identifier `id` does: the next state and the
/// message that tells the user who it is.
pub open spec fn arrived(s: RelayV, id: Seq<char>) -> (RelayV, Result<DeliveryV, RouteError>) {
    if s.users.contains_key(id) {
        (s, Err(RouteError::IdTaken))
    } else {
        (
            RelayV { users: s.users.insert(id, UserV { id, session: None }), sessions: s.sessions },
            Ok(DeliveryV { to: id, signal: SignalV::NewUser(id) }),
        )
    }
}

pub open spec fn delivery_view(r: Result<Delivery, RouteError>) -> Result<DeliveryV, RouteError> {
    match r {
        Ok(d) => Ok(d@),
        Err(e) => Err(e),
    }
}

/// Whether `k` is one of the first `n` of `keys`.
spec fn among(keys: Seq<String>, n: int, k: Seq<char>) -> bool {
    exists|j: int| 0 <= j < n && keys[j]@ == k
}

/// Relies on uuid's `Uuid::new_v4` and its `Display`: a random version 4
/// identifier, written as 36 characters. Nothing is promised of its value.
#[verifier::external_body]
fn random_id() -> (r: String)
    ensures
        r@.len() == 36,
{
    uuid::Uuid::new_v4().to_string()
}

/// The relay: every connected user and every open session.
pub struct Relay {
    users: Registry<User>,
    sessions: Registry<Session>,
}

impl View for Relay {
    type V = RelayV;

    closed spec fn view(&self) -> RelayV {
        RelayV { users: self.users@, sessions: self.sessions@ }
    }
}

impl Relay {
    pub closed spec fn wf(&self) -> bool {
        self.users.wf() && self.sessions.wf() && consistent(self@)
    }

    /// A well-formed relay is consistent.
    pub proof fn lemma_wf_consistent(&self)
        requires
            self.wf(),
        ensures
            consistent(self@),
    {
    }

    pub fn new() -> (r: Relay)
        ensures
            r.wf(),
            r@.users == Map::<Seq<char>, UserV>::empty(),
            r@.sessions == Map::<Seq<char>, SessionV>::empty(),
    {
        Relay { users: Registry::new(), sessions: Registry::new() }
    }

    fn forward(&self, dest: Option<UserId>, signal: Signal) -> (r: Result<Option<Delivery>, RouteError>)
        requires
            self.wf(),
        ensures
            outcome_view(r) == forward(self@, view_opt(dest), signal@),
    {
        match dest {
            None => Err(RouteError::NoGuest),
            Some(d) => if self.users.contains(d.value()) {
                Ok(Some(Delivery { to: d, signal }))
            } else {
                Err(RouteError::UnknownDestination)
            },
        }
    }

    fn set_current(&mut self, user: &UserId, sid: &SessionId)
        requires
            old(self).wf(),
            old(self)@.users.contains_key(user@),
        ensures
            final(self).wf(),
            final(self)@ == (RelayV { users: with_current(old(self)@, user@, sid@), sessions: old(self)@.sessions }),
    {
        let uid = match self.users.get(user.value()) {
            Some(u) => u.user_id.duplicate(),
            None => return,
        };
        self.users.insert(user.value().clone(), User { user_id: uid, session_id: Some(sid.duplicate()) });
    }

    /// Whether a user with this identifier is connected.
    pub fn has_user(&self, id: &UserId) -> (r: bool)
        requires
            self.wf(),
        ensures
            r == self@.users.contains_key(id@),
    {
        self.users.contains(id.value())
    }

    /// The connected user with this identifier.
    pub fn user(&self, id: &UserId) -> (r: Option<&User>)
        requires
            self.wf(),
        ensures
            r is None <==> !self@.users.contains_key(id@),
            r matches Some(u) ==> u@ == self@.users[id@],
    {
        self.users.get(id.value())
    }

    /// The session with this identifier.
    pub fn session(&self, id: &SessionId) -> (r: Option<&Session>)
        requires
            self.wf(),
        ensures
            r is None <==> !self@.sessions.contains_key(id@),
            r matches Some(v) ==> v@ == self@.sessions[id@],
    {
        self.sessions.get(id.value())
    }

    /// Registers a newly connected user under `id` and returns the message
    /// that tells it its identifier.
    pub fn connect_with(&mut self, id: UserId) -> (r: Result<Delivery, RouteError>)
        requires
            old(self).wf(),
        ensures
            final(self).wf(),
            (final(self)@, delivery_view(r)) == arrived(old(self)@, id@),
    {
        if self.users.contains(id.value()) {
            return Err(RouteError::IdTaken);
        }
        self.users.insert(id.value().clone(), User { user_id: id.duplicate(), session_id: None });
        Ok(Delivery { to: id.duplicate(), signal: Signal::NewUser(id) })
    }

    /// Registers a newly connected user under a random identifier.
    pub fn connect(&mut self) -> (r: Result<Delivery, RouteError>)
        requires
            old(self).wf(),
        ensures
            final(self).wf(),
            exists|id: Seq<char>| (final(self)@, delivery_view(r)) == arrived(old(self)@, id),
    {
        let id = UserId::new(random_id());
        self.connect_with(id)
    }

    /// Forgets `user` and closes every session it hosted or joined.
    pub fn disconnect(&mut self, user: &UserId)
        requires
            old(self).wf(),
        ensures
            final(self).wf(),
            final(self)@ == departed(old(self)@, user@),
    {
        self.users.remove(user.value());
        let keys = self.sessions.keys();
        let ghost before = self.sessions@;
        let mut i: usize = 0;
        while i < keys.len()
            invariant
                self.users.wf(),
                self.sessions.wf(),
                self.users@ == old(self)@.users.remove(user@),
                before == old(self)@.sessions,
                i <= keys.len(),
                forall|j: int| 0 <= j < keys.len() ==> #[trigger] before.contains_key(keys@[j]@),
                forall|k: Seq<char>| #[trigger] before.contains_key(k) ==> exists|j: int|
                    0 <= j < keys.len() && keys@[j]@ == k,
                self.sessions@ == Map::new(
                    |k: Seq<char>| before.contains_key(k) && !(involves(before[k], user@)
                        && among(keys@, i as int, k)),
                    |k: Seq<char>| before[k],
                ),
            decreases keys.len() - i,
        {
            let gone = match self.sessions.get(&keys[i]) {
                Some(session) => session.host.same(user) || match &session.guest {
                    Some(g) => g.same(user),
                    None => false,
                },
                None => false,
            };
            let ghost prev = self.sessions@;
            if gone {
                self.sessions.remove(&keys[i]);
            }
            i = i + 1;
            assert(self.sessions@ =~= Map::new(
                |k: Seq<char>| before.contains_key(k) && !(involves(before[k], user@)
                    && among(keys@, i as int, k)),
                |k: Seq<char>| before[k],
            )) by {
                assert forall|k: Seq<char>| #[trigger] among(keys@, i as int, k)
                    <==> (among(keys@, i - 1, k) || k == keys@[i - 1]@) by {
                    if k == keys@[i - 1]@ {
                        assert(0 <= i - 1 < i && keys@[i - 1]@ == k);
                    }
                    if among(keys@, i as int, k) && k != keys@[i - 1]@ {
                        let j = choose|j: int| 0 <= j < i && keys@[j]@ == k;
                        assert(0 <= j < i - 1 && keys@[j]@ == k);
                    }
                    if among(keys@, i - 1, k) {
                        let j = choose|j: int| 0 <= j < i - 1 && keys@[j]@ == k;
                        assert(0 <= j < i && keys@[j]@ == k);
                    }
                }
            }
        }
        assert(self.sessions@ =~= departed(old(self)@, user@).sessions) by {
            assert forall|k: Seq<char>| before.contains_key(k) implies
                #[trigger] among(keys@, i as int, k) by {
                let j = choose|j: int| 0 <= j < keys.len() && keys@[j]@ == k;
                assert(0 <= j < i && keys@[j]@ == k);
            }
        }
    }

    /// Routes `signal` from `sender`; a new session is given the identifier
    /// `fresh`.
    pub fn route(&mut self, sender: &UserId, signal: Signal, fresh: SessionId) -> (r: Result<Option<Delivery>, RouteError>)
        requires
            old(self).wf(),
        ensures
            final(self).wf(),
            (final(self)@, outcome_view(r)) == step(old(self)@, sender@, signal@, fresh@),
    {
        if !self.users.contains(sender.value()) {
            return Err(RouteError::UnknownSender);
        }
        match signal {
            Signal::SessionNew => {
                if self.sessions.contains(fresh.value()) {
                    return Err(RouteError::IdTaken);
                }
                self.sessions.insert(fresh.value().clone(), Session { host: sender.duplicate(), guest: None });
                self.set_current(sender, &fresh);
                Ok(Some(Delivery { to: sender.duplicate(), signal: Signal::SessionCreated(fresh) }))
            },
            Signal::SessionJoin(id) => {
                let host = match self.sessions.get(id.value()) {
                    Some(session) => session.host.duplicate(),
                    None => {
                        return Ok(Some(Delivery { to: sender.duplicate(), signal: Signal::SessionJoinError(id) }));
                    },
                };
                self.sessions.insert(id.value().clone(), Session { host, guest: Some(sender.duplicate()) });
                Ok(Some(Delivery { to: sender.duplicate(), signal: Signal::SessionJoinSuccess(id) }))
            },
            Signal::VideoOffer(id, sdp) => {
                let dest = match self.sessions.get(id.value()) {
                    Some(session) => session.host.duplicate(),
                    None => return Err(RouteError::UnknownSession),
                };
                self.forward(Some(dest), Signal::VideoOffer(id, sdp))
            },
            Signal::VideoAnswer(id, sdp) => {
                let dest = match self.sessions.get(id.value()) {
                    Some(session) => match &session.guest {
                        Some(g) => Some(g.duplicate()),
                        None => None,
                    },
                    None => return Err(RouteError::UnknownSession),
                };
                self.forward(dest, Signal::VideoAnswer(id, sdp))
            },
            Signal::ICECandidate(id, candidate) => {
                let dest = match self.sessions.get(id.value()) {
                    Some(session) => {
                        let guest = match &session.guest {
                            Some(g) => Some(g.duplicate()),
                            None => None,
                        };
                        if sender.same(&session.host) {
                            guest
                        } else {
                            match guest {
                                Some(g) => if g.same(sender) {
                                    Some(session.host.duplicate())
                                } else {
                                    return Err(RouteError::NotParticipant);
                                },
                                None => return Err(RouteError::NotParticipant),
                            }
                        }
                    },
                    None => return Err(RouteError::UnknownSession),
                };
                self.forward(dest, Signal::ICECandidate(id, candidate))
            },
            Signal::NewUser(_) => Ok(None),
            Signal::ICEError(_, _) => Ok(None),
            _ => Err(RouteError::Unexpected),
        }
    }

    /// Routes `signal` from `sender`, drawing a random identifier when it
    /// asks for a new session.
    pub fn handle(&mut self, sender: &UserId, signal: Signal) -> (r: Result<Option<Delivery>, RouteError>)
        requires
            old(self).wf(),
        ensures
            final(self).wf(),
            exists|fresh: Seq<char>| (final(self)@, outcome_view(r)) == step(old(self)@, sender@, signal@, fresh),
            !(signal@ is SessionNew) ==> (final(self)@, outcome_view(r)) == step(
                old(self)@,
                sender@,
                signal@,
                Seq::empty(),
            ),
    {
        let fresh = match signal {
            Signal::SessionNew => SessionId::new(random_id()),
            _ => SessionId::new(String::new()),
        };
        let ghost f = fresh@;
        let r = self.route(sender, signal, fresh);
        assert((final(self)@, outcome_view(r)) == step(old(self)@, sender@, signal@, f));
        r
    }
}

} // verus!
