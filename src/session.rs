use vstd::prelude::*;

use crate::auth::{username_for_token, TokenTable};
use crate::envelope::{forward_ok, hello_of, text_member, ForwardMsg, Hello};
use crate::json::{check_json, json_parses, member, JsonField};
use crate::registry::{ConnId, Registry};
use crate::text::{lower_of, lowercase};

verus! {

/// Why a connection was closed during its handshake.
#[derive(PartialEq, Eq, Structural, Clone, Copy, Debug)]
pub enum HandshakeError {
    /// The first frame was not a well-formed `hello`.
    HelloRequired,
    /// The token is not live.
    UnknownToken,
    /// The token was issued to another identity.
    InvalidToken,
}

pub open spec fn notice_text(e: HandshakeError) -> Seq<char> {
    match e {
        HandshakeError::HelloRequired => "{\"type\":\"system\",\"msg\":\"hello required\"}"@,
        HandshakeError::UnknownToken => "{\"type\":\"system\",\"msg\":\"unknown token\"}"@,
        HandshakeError::InvalidToken => "{\"type\":\"system\",\"msg\":\"invalid token\"}"@,
    }
}

/// The notice sent to a sender whose frame is not JSON.
pub open spec fn malformed_notice_text() -> Seq<char> {
    "{\"type\":\"system\",\"msg\":\"invalid message format\"}"@
}

impl HandshakeError {
    /// The `system` frame sent to the peer before its connection is closed.
    pub fn notice(&self) -> (r: String)
        ensures
            r@ == notice_text(*self),
    {
        match self {
            HandshakeError::HelloRequired => "{\"type\":\"system\",\"msg\":\"hello required\"}".to_owned(),
            HandshakeError::UnknownToken => "{\"type\":\"system\",\"msg\":\"unknown token\"}".to_owned(),
            HandshakeError::InvalidToken => "{\"type\":\"system\",\"msg\":\"invalid token\"}".to_owned(),
        }
    }
}

pub open spec fn frame_view(first: Option<&str>) -> Option<Seq<char>> {
    match first {
        Some(t) => Some(t@),
        None => None,
    }
}

/// The outcome of a handshake, given the first frame (`None` where it was not a
/// text frame or the connection ended first) and the live tokens.
pub open spec fn handshake_outcome(
    tokens: Map<Seq<char>, Seq<char>>,
    first: Option<Seq<char>>,
) -> Result<Seq<char>, HandshakeError> {
    match first {
        None => Err(HandshakeError::HelloRequired),
        Some(text) => match hello_of(text) {
            None => Err(HandshakeError::HelloRequired),
            Some((username, token)) => if !tokens.contains_key(token) {
                Err(HandshakeError::UnknownToken)
            } else if tokens[token] != username {
                Err(HandshakeError::InvalidToken)
            } else {
                Ok(username)
            },
        },
    }
}

/// Checks the first frame of a connection against the live tokens. On success
/// returns the `hello` frame; the username is the one the token was issued to.
pub fn handshake(tokens: &TokenTable, first: Option<&str>) -> (r: Result<Hello, HandshakeError>)
    requires
        tokens.wf(),
    ensures
        match r {
            Ok(h) => handshake_outcome(tokens@, frame_view(first)) == Ok::<
                Seq<char>,
                HandshakeError,
            >(h.username@),
            Err(e) => handshake_outcome(tokens@, frame_view(first)) == Err::<
                Seq<char>,
                HandshakeError,
            >(e),
        },
{
    let text = match first {
        Some(t) => t,
        None => return Err(HandshakeError::HelloRequired),
    };
    let hello = match Hello::parse(text) {
        Some(h) => h,
        None => return Err(HandshakeError::HelloRequired),
    };
    match username_for_token(tokens, hello.token.as_str()) {
        None => Err(HandshakeError::UnknownToken),
        Some(expected) => {
            if expected == hello.username {
                Ok(hello)
            } else {
                Err(HandshakeError::InvalidToken)
            }
        },
    }
}

/// Runs the handshake of connection `conn` and, on success, admits it: its
/// normalized identity is bound to `conn`, replacing any earlier entry. A
/// rejected connection leaves the registry as it was.
pub fn open_session(
    registry: &mut Registry,
    tokens: &TokenTable,
    first: Option<&str>,
    conn: ConnId,
) -> (r: Result<String, HandshakeError>)
    requires
        old(registry).wf(),
        tokens.wf(),
    ensures
        final(registry).wf(),
        match r {
            Ok(id) => handshake_outcome(tokens@, frame_view(first)) is Ok && id@ == lower_of(
                handshake_outcome(tokens@, frame_view(first))->Ok_0,
            ) && final(registry)@ == old(registry)@.insert(id@, conn),
            Err(e) => handshake_outcome(tokens@, frame_view(first)) == Err::<
                Seq<char>,
                HandshakeError,
            >(e) && final(registry)@ == old(registry)@,
        },
{
    match handshake(tokens, first) {
        Ok(hello) => Ok(registry.register(hello.username.as_str(), conn)),
        Err(e) => Err(e),
    }
}

/// The connection of a normalized identity, as a list of zero or one.
pub open spec fn reach(registry: Map<Seq<char>, ConnId>, identity: Seq<char>) -> Seq<ConnId> {
    if registry.contains_key(identity) {
        seq![registry[identity]]
    } else {
        Seq::empty()
    }
}

/// Where a frame addressed to `to` and sent as `from` goes: the recipient first,
/// then the echo to the sender; an identity that is not registered is skipped.
pub open spec fn deliveries(
    registry: Map<Seq<char>, ConnId>,
    to: Seq<char>,
    from: Seq<char>,
) -> Seq<ConnId> {
    reach(registry, lower_of(to)) + reach(registry, lower_of(from))
}

/// The connections that receive a JSON frame, unmodified.
pub open spec fn route_targets(registry: Map<Seq<char>, ConnId>, text: Seq<char>) -> Seq<ConnId> {
    let kind = text_member(text, "type"@);
    if kind == Some("ciphertext"@) {
        match text_member(text, "to"@) {
            Some(to) => deliveries(
                registry,
                to,
                match text_member(text, "from"@) {
                    Some(f) => f,
                    None => Seq::empty(),
                },
            ),
            None => Seq::empty(),
        }
    } else if kind == Some("plaintext"@) && forward_ok(text) {
        match text_member(text, "to"@) {
            Some(to) => deliveries(registry, to, text_member(text, "from"@).unwrap()),
            None => Seq::empty(),
        }
    } else {
        Seq::empty()
    }
}

fn reach_of(registry: &Registry, identity: &str) -> (r: Vec<ConnId>)
    requires
        registry.wf(),
    ensures
        r@ == reach(registry@, lower_of(identity@)),
{
    let key = lowercase(identity);
    let mut r: Vec<ConnId> = Vec::new();
    match registry.lookup(key.as_str()) {
        Some(c) => {
            r.push(c);
            assert(r@ =~= seq![c]);
        },
        None => {
            assert(r@ =~= Seq::<ConnId>::empty());
        },
    }
    r
}

fn deliver_to(registry: &Registry, to: &str, from: &str) -> (r: Vec<ConnId>)
    requires
        registry.wf(),
    ensures
        r@ == deliveries(registry@, to@, from@),
{
    let mut r = reach_of(registry, to);
    let mut echo = reach_of(registry, from);
    r.append(&mut echo);
    r
}

/// Decides where an inbound text frame of an admitted connection goes. A frame
/// that is not JSON is answered with a notice to its sender only (`Err`);
/// otherwise the frame goes, unmodified, to the connections listed (`Ok`), which
/// may be none. A `ciphertext` or `plaintext` frame without a string `to` is not
/// forwarded at all, not even echoed to its sender; other kinds are ignored.
pub fn route(registry: &Registry, text: &str) -> (r: Result<Vec<ConnId>, String>)
    requires
        registry.wf(),
    ensures
        match r {
            Ok(targets) => json_parses(text@) && targets@ == route_targets(registry@, text@),
            Err(notice) => !json_parses(text@) && notice@ == malformed_notice_text(),
        },
{
    if check_json(text).is_err() {
        return Err("{\"type\":\"system\",\"msg\":\"invalid message format\"}".to_owned());
    }
    let kind = match member(text, "type") {
        JsonField::Text(k) => k,
        _ => return Ok(Vec::new()),
    };
    if kind == "ciphertext".to_owned() {
        let from = match member(text, "from") {
            JsonField::Text(f) => f,
            _ => String::new(),
        };
        match member(text, "to") {
            JsonField::Text(to) => Ok(deliver_to(registry, to.as_str(), from.as_str())),
            _ => Ok(Vec::new()),
        }
    } else if kind == "plaintext".to_owned() {
        match ForwardMsg::parse(text) {
            Some(msg) => match msg.to {
                Some(to) => Ok(deliver_to(registry, to.as_str(), msg.from.as_str())),
                None => Ok(Vec::new()),
            },
            None => Ok(Vec::new()),
        }
    } else {
        Ok(Vec::new())
    }
}

/// Where a connection stands in its lifecycle.
pub enum Phase {
    /// The transport is open and no frame has been read.
    Connected,
    /// The handshake succeeded under this normalized identity.
    Admitted(String),
    /// Terminal.
    Closed,
}

/// What the transport layer does after a step of a connection.
pub enum Step {
    /// Send this notice to the peer and close the connection.
    Refuse(String),
    /// The peer was admitted under this identity: announce the new presence and
    /// the join notice to every registered connection.
    Joined(String),
    /// Send the frame, unmodified, to each of these connections.
    Forward(Vec<ConnId>),
    /// Send this notice to the peer only.
    Reply(String),
    /// The peer's entry is gone: announce the new presence.
    Left,
    /// Nothing to do.
    Ignored,
}

/// One connection of the relay.
pub struct Connection {
    pub conn: ConnId,
    pub phase: Phase,
}

pub open spec fn admitted_identity(p: Phase) -> Option<Seq<char>> {
    match p {
        Phase::Admitted(id) => Some(id@),
        _ => None,
    }
}

impl Connection {
    pub fn new(conn: ConnId) -> (r: Connection)
        ensures
            r.conn == conn,
            r.phase is Connected,
    {
        Connection { conn, phase: Phase::Connected }
    }

    /// Handles an inbound frame: `Some(text)` for a text frame, `None` for any
    /// other frame (and, as a first frame, for a connection that ended first).
    /// The first frame runs the handshake; later frames are routed.
    pub fn receive(&mut self, registry: &mut Registry, tokens: &TokenTable, frame: Option<&str>) -> (r: Step)
        requires
            old(registry).wf(),
            tokens.wf(),
        ensures
            final(registry).wf(),
            final(self).conn == old(self).conn,
            old(self).phase is Connected ==> match handshake_outcome(tokens@, frame_view(frame)) {
                Ok(username) => r matches Step::Joined(id) && id@ == lower_of(username)
                    && admitted_identity(final(self).phase) == Some(id@) && final(registry)@
                    == old(registry)@.insert(id@, old(self).conn),
                Err(e) => r matches Step::Refuse(n) && n@ == notice_text(e)
                    && final(self).phase is Closed && final(registry)@ == old(registry)@,
            },
            old(self).phase is Admitted ==> final(registry)@ == old(registry)@
                && admitted_identity(final(self).phase) == admitted_identity(old(self).phase)
                && match frame {
                None => r is Ignored,
                Some(text) => if json_parses(text@) {
                    r matches Step::Forward(t) && t@ == route_targets(old(registry)@, text@)
                } else {
                    r matches Step::Reply(n) && n@ == malformed_notice_text()
                },
            },
            old(self).phase is Closed ==> r is Ignored && final(self).phase is Closed
                && final(registry)@ == old(registry)@,
    {
        match self.phase {
            Phase::Connected => match open_session(registry, tokens, frame, self.conn) {
                Ok(id) => {
                    self.phase = Phase::Admitted(id.clone());
                    Step::Joined(id)
                },
                Err(e) => {
                    self.phase = Phase::Closed;
                    Step::Refuse(e.notice())
                },
            },
            Phase::Admitted(_) => match frame {
                None => Step::Ignored,
                Some(text) => match route(registry, text) {
                    Ok(targets) => Step::Forward(targets),
                    Err(notice) => Step::Reply(notice),
                },
            },
            Phase::Closed => Step::Ignored,
        }
    }

    /// Ends the connection, on any exit path of its task. An admitted
    /// connection's entry is removed where it still owns it; the connection is
    /// then closed, so that a second call removes nothing.
    pub fn close(&mut self, registry: &mut Registry) -> (r: Step)
        requires
            old(registry).wf(),
        ensures
            final(registry).wf(),
            final(self).conn == old(self).conn,
            final(self).phase is Closed,
            match admitted_identity(old(self).phase) {
                Some(id) => r is Left && final(registry)@ == (if old(registry)@.contains_key(id)
                    && old(registry)@[id] == old(self).conn {
                    old(registry)@.remove(id)
                } else {
                    old(registry)@
                }),
                None => r is Ignored && final(registry)@ == old(registry)@,
            },
    {
        let step = match &self.phase {
            Phase::Admitted(id) => {
                registry.release(id.as_str(), self.conn);
                Step::Left
            },
            _ => Step::Ignored,
        };
        self.phase = Phase::Closed;
        step
    }
}

/// A first frame that is not a well-formed `hello` closes the connection with
/// "hello required", whatever tokens are live.
pub proof fn lemma_hello_required(tokens: Map<Seq<char>, Seq<char>>, first: Option<Seq<char>>)
    requires
        first matches Some(text) ==> hello_of(text).is_none(),
    ensures
        handshake_outcome(tokens, first) == Err::<Seq<char>, HandshakeError>(
            HandshakeError::HelloRequired,
        ),
{
}

/// A token issued to one identity, presented with a claim to another, closes the
/// connection with "invalid token".
pub proof fn lemma_token_of_another(
    tokens: Map<Seq<char>, Seq<char>>,
    text: Seq<char>,
    claimed: Seq<char>,
    token: Seq<char>,
)
    requires
        hello_of(text) == Some((claimed, token)),
        tokens.contains_key(token),
        tokens[token] != claimed,
    ensures
        handshake_outcome(tokens, Some(text)) == Err::<Seq<char>, HandshakeError>(
            HandshakeError::InvalidToken,
        ),
{
}

/// A `ciphertext` frame addressed to a registered recipient goes to the
/// recipient and back to its sender; addressed to one who is not registered, it
/// goes back to its sender alone.
pub proof fn lemma_ciphertext_routing(
    registry: Map<Seq<char>, ConnId>,
    text: Seq<char>,
    to: Seq<char>,
    from: Seq<char>,
)
    requires
        text_member(text, "type"@) == Some("ciphertext"@),
        text_member(text, "to"@) == Some(to),
        text_member(text, "from"@) == Some(from),
        registry.contains_key(lower_of(from)),
    ensures
        registry.contains_key(lower_of(to)) ==> route_targets(registry, text) == seq![
            registry[lower_of(to)],
            registry[lower_of(from)],
        ],
        !registry.contains_key(lower_of(to)) ==> route_targets(registry, text) == seq![
            registry[lower_of(from)],
        ],
{
    assert(reach(registry, lower_of(from)) == seq![registry[lower_of(from)]]);
    if registry.contains_key(lower_of(to)) {
        assert(route_targets(registry, text) =~= seq![
            registry[lower_of(to)],
            registry[lower_of(from)],
        ]);
    } else {
        assert(route_targets(registry, text) =~= seq![registry[lower_of(from)]]);
    }
}

} // verus!
