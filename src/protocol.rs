use vstd::prelude::*;

verus! {

/// Identifier of a session, chosen by the server when a host asks for one.
#[derive(Debug, Default, Clone, Hash)]
pub struct SessionId(pub String);

/// Identifier of a connected user, chosen by the server at connect time.
#[derive(Debug, Default, Clone, Hash)]
pub struct UserId(pub String);

impl View for SessionId {
    type V = Seq<char>;

    open spec fn view(&self) -> Seq<char> {
        self.0@
    }
}

impl View for UserId {
    type V = Seq<char>;

    open spec fn view(&self) -> Seq<char> {
        self.0@
    }
}

impl SessionId {
    pub fn new(string: String) -> (r: SessionId)
        ensures
            r@ == string@,
    {
        SessionId(string)
    }

    pub fn value(&self) -> (r: &String)
        ensures
            r@ == self@,
    {
        &self.0
    }

    pub fn same(&self, other: &SessionId) -> (r: bool)
        ensures
            r == (self@ == other@),
    {
        self.0 == other.0
    }

    pub fn duplicate(&self) -> (r: SessionId)
        ensures
            r@ == self@,
    {
        SessionId(self.0.clone())
    }
}

impl UserId {
    pub fn new(string: String) -> (r: UserId)
        ensures
            r@ == string@,
    {
        UserId(string)
    }

    pub fn value(&self) -> (r: &String)
        ensures
            r@ == self@,
    {
        &self.0
    }

    pub fn same(&self, other: &UserId) -> (r: bool)
        ensures
            r == (self@ == other@),
    {
        self.0 == other.0
    }

    pub fn duplicate(&self) -> (r: UserId)
        ensures
            r@ == self@,
    {
        UserId(self.0.clone())
    }
}

impl PartialEq for SessionId {
    fn eq(&self, other: &SessionId) -> (r: bool) {
        self.0 == other.0
    }
}

impl vstd::std_specs::cmp::PartialEqSpecImpl for SessionId {
    open spec fn obeys_eq_spec() -> bool {
        true
    }

    open spec fn eq_spec(&self, other: &SessionId) -> bool {
        self@ == other@
    }
}

impl Eq for SessionId {}

impl PartialEq for UserId {
    fn eq(&self, other: &UserId) -> (r: bool) {
        self.0 == other.0
    }
}

impl vstd::std_specs::cmp::PartialEqSpecImpl for UserId {
    open spec fn obeys_eq_spec() -> bool {
        true
    }

    open spec fn eq_spec(&self, other: &UserId) -> bool {
        self@ == other@
    }
}

impl Eq for UserId {}

/// One message of the protocol. Session descriptions and connectivity
/// candidates are carried as opaque text.
#[derive(Debug, Clone, PartialEq, Eq)]
pub enum Signal {
    NewUser(UserId),
    SessionNew,
    SessionCreated(SessionId),
    SessionJoin(SessionId),
    SessionJoinSuccess(SessionId),
    SessionJoinError(SessionId),
    VideoOffer(SessionId, String),
    VideoAnswer(SessionId, String),
    ICECandidate(SessionId, String),
    ICEError(SessionId, String),
}

/// What a `Signal` means: the same variants over character sequences.
pub enum SignalV {
    NewUser(Seq<char>),
    SessionNew,
    SessionCreated(Seq<char>),
    SessionJoin(Seq<char>),
    SessionJoinSuccess(Seq<char>),
    SessionJoinError(Seq<char>),
    VideoOffer(Seq<char>, Seq<char>),
    VideoAnswer(Seq<char>, Seq<char>),
    ICECandidate(Seq<char>, Seq<char>),
    ICEError(Seq<char>, Seq<char>),
}

impl View for Signal {
    type V = SignalV;

    open spec fn view(&self) -> SignalV {
        match self {
            Signal::NewUser(u) => SignalV::NewUser(u@),
            Signal::SessionNew => SignalV::SessionNew,
            Signal::SessionCreated(s) => SignalV::SessionCreated(s@),
            Signal::SessionJoin(s) => SignalV::SessionJoin(s@),
            Signal::SessionJoinSuccess(s) => SignalV::SessionJoinSuccess(s@),
            Signal::SessionJoinError(s) => SignalV::SessionJoinError(s@),
            Signal::VideoOffer(s, p) => SignalV::VideoOffer(s@, p@),
            Signal::VideoAnswer(s, p) => SignalV::VideoAnswer(s@, p@),
            Signal::ICECandidate(s, p) => SignalV::ICECandidate(s@, p@),
            Signal::ICEError(s, p) => SignalV::ICEError(s@, p@),
        }
    }
}

impl SignalV {
    /// The session that a message refers to, if it names one.
    pub open spec fn session(self) -> Option<Seq<char>> {
        match self {
            SignalV::NewUser(_) => None,
            SignalV::SessionNew => None,
            SignalV::SessionCreated(s) => Some(s),
            SignalV::SessionJoin(s) => Some(s),
            SignalV::SessionJoinSuccess(s) => Some(s),
            SignalV::SessionJoinError(s) => Some(s),
            SignalV::VideoOffer(s, _) => Some(s),
            SignalV::VideoAnswer(s, _) => Some(s),
            SignalV::ICECandidate(s, _) => Some(s),
            SignalV::ICEError(s, _) => Some(s),
        }
    }
}

/// The view of an optional value.
pub open spec fn view_opt<T: View>(o: Option<T>) -> Option<T::V> {
    match o {
        Some(t) => Some(t@),
        None => None,
    }
}

} // verus!
