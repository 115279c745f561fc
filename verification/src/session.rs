//! The life of one handshake: from an opened transport connection to an
//! authenticated stream or a failure.

use vstd::prelude::*;

verus! {

/// Which side of the negotiation a session plays.
#[derive(Debug, Clone, Copy, PartialEq, Eq, Structural)]
pub enum Role {
    /// The connecting peer.
    Initiator,
    /// The accepting peer.
    Responder,
}

/// Why a session failed.
#[derive(Debug, Clone, Copy, PartialEq, Eq, Structural)]
pub enum SessionError {
    /// The transport connection could not be opened.
    Transport,
    /// The host is neither a DNS name nor an IP address.
    InvalidServerName,
    /// The TLS negotiation failed.
    Handshake,
    /// The caller gave the attempt up.
    Cancelled,
}

/// Where a session stands.
#[derive(Debug, Clone, Copy, PartialEq, Eq, Structural)]
pub enum Phase {
    /// The transport connection is being opened.
    Connecting,
    /// The transport is open and the negotiation is under way.
    Negotiating,
    /// The negotiation succeeded: application data may flow.
    Established,
    /// The session failed and holds nothing any more.
    Failed(SessionError),
}

/// What happened on the network.
#[derive(Debug, Clone, Copy, PartialEq, Eq, Structural)]
pub enum SessionEvent {
    TransportOpened,
    TransportFailed,
    HandshakeCompleted,
    HandshakeFailed,
    /// The caller gives up a session that is still under way.
    Cancelled,
}

/// What the caller has to do next.
#[derive(Debug, Clone, Copy, PartialEq, Eq, Structural)]
pub enum SessionAction {
    /// Start the TLS negotiation on the open transport.
    StartHandshake,
    /// Hand the authenticated stream to the user.
    DeliverStream,
    /// Close the transport socket; nothing of the session is kept.
    ReleaseTransport,
    /// Report the failure; there is no socket to close.
    ReportFailure,
    /// The event does not belong to the session's phase: nothing changes.
    Ignore,
}

/// What `rustls::ServerName::try_from` makes of a host: whether it accepts
/// it as a DNS name or an IP address.
pub uninterp spec fn valid_server_name(host: Seq<char>) -> bool;

/// Calls `rustls::ServerName::try_from` on `host` and says whether it
/// succeeded. The answer depends on the characters of `host` alone; the
/// contract names it [`valid_server_name`].
#[verifier::external_body]
pub(crate) fn server_name_accepted(host: &str) -> (accepted: bool)
    ensures
        accepted == valid_server_name(host@),
{
    tokio_rustls::rustls::ServerName::try_from(host).is_ok()
}

/// The phase that follows `phase` on `event`, and the action to take.
/// `name_ok` says whether the peer identity of an initiator is a valid
/// server name; a responder verifies no name.
pub open spec fn transition(phase: Phase, event: SessionEvent, name_ok: bool) -> (
    Phase,
    SessionAction,
) {
    match (phase, event) {
        (Phase::Connecting, SessionEvent::TransportOpened) => if name_ok {
            (Phase::Negotiating, SessionAction::StartHandshake)
        } else {
            (Phase::Failed(SessionError::InvalidServerName), SessionAction::ReleaseTransport)
        },
        (Phase::Connecting, SessionEvent::TransportFailed) => (
            Phase::Failed(SessionError::Transport),
            SessionAction::ReportFailure,
        ),
        (Phase::Negotiating, SessionEvent::HandshakeCompleted) => (
            Phase::Established,
            SessionAction::DeliverStream,
        ),
        (Phase::Negotiating, SessionEvent::HandshakeFailed) => (
            Phase::Failed(SessionError::Handshake),
            SessionAction::ReleaseTransport,
        ),
        (Phase::Connecting, SessionEvent::Cancelled) | (
            Phase::Negotiating,
            SessionEvent::Cancelled,
        ) => (Phase::Failed(SessionError::Cancelled), SessionAction::ReleaseTransport),
        _ => (phase, SessionAction::Ignore),
    }
}

/// The next phase and action, computed.
pub fn next_step(phase: Phase, event: SessionEvent, name_ok: bool) -> (step: (
    Phase,
    SessionAction,
))
    ensures
        step == transition(phase, event, name_ok),
{
    match phase {
        Phase::Connecting => match event {
            SessionEvent::TransportOpened => if name_ok {
                (Phase::Negotiating, SessionAction::StartHandshake)
            } else {
                (Phase::Failed(SessionError::InvalidServerName), SessionAction::ReleaseTransport)
            },
            SessionEvent::TransportFailed => (
                Phase::Failed(SessionError::Transport),
                SessionAction::ReportFailure,
            ),
            SessionEvent::Cancelled => (
                Phase::Failed(SessionError::Cancelled),
                SessionAction::ReleaseTransport,
            ),
            _ => (phase, SessionAction::Ignore),
        },
        Phase::Negotiating => match event {
            SessionEvent::HandshakeCompleted => (Phase::Established, SessionAction::DeliverStream),
            SessionEvent::HandshakeFailed => (
                Phase::Failed(SessionError::Handshake),
                SessionAction::ReleaseTransport,
            ),
            SessionEvent::Cancelled => (
                Phase::Failed(SessionError::Cancelled),
                SessionAction::ReleaseTransport,
            ),
            _ => (phase, SessionAction::Ignore),
        },
        _ => (phase, SessionAction::Ignore),
    }
}

/// The state of one negotiation on one transport connection.
#[derive(Debug)]
pub struct HandshakeSession {
    role: Role,
    peer_identity: Option<String>,
    phase: Phase,
}

impl HandshakeSession {
    /// The side that the session plays.
    pub closed spec fn spec_role(&self) -> Role {
        self.role
    }

    /// The host to verify the peer against; only an initiator has one.
    pub closed spec fn spec_peer_identity(&self) -> Option<Seq<char>> {
        match self.peer_identity {
            Some(host) => Some(host@),
            None => None,
        }
    }

    /// Where the session stands.
    pub closed spec fn spec_phase(&self) -> Phase {
        self.phase
    }

    /// Whether the session may start a negotiation once its transport is
    /// open: a responder always, an initiator if its host is a valid server
    /// name.
    pub open spec fn name_ok(&self) -> bool {
        match self.spec_peer_identity() {
            Some(host) => valid_server_name(host),
            None => true,
        }
    }

    /// The invariant of the type: exactly the initiator has a peer identity,
    /// and a responder starts with its transport open.
    pub open spec fn well_formed(&self) -> bool {
        &&& (self.spec_role() == Role::Initiator) == self.spec_peer_identity().is_some()
        &&& self.spec_role() == Role::Responder ==> self.spec_phase() != Phase::Connecting
    }

    /// The session of a client that is about to open a transport connection
    /// to `host`.
    pub fn initiator(host: String) -> (session: HandshakeSession)
        ensures
            session.well_formed(),
            session.spec_role() == Role::Initiator,
            session.spec_peer_identity() == Some(host@),
            session.spec_phase() == Phase::Connecting,
    {
        HandshakeSession { role: Role::Initiator, peer_identity: Some(host), phase: Phase::Connecting }
    }

    /// The session of a server for a transport connection that it has
    /// accepted.
    pub fn responder() -> (session: HandshakeSession)
        ensures
            session.well_formed(),
            session.spec_role() == Role::Responder,
            session.spec_peer_identity().is_none(),
            session.spec_phase() == Phase::Negotiating,
    {
        HandshakeSession { role: Role::Responder, peer_identity: None, phase: Phase::Negotiating }
    }

    /// The side that the session plays.
    pub fn role(&self) -> (role: Role)
        ensures
            role == self.spec_role(),
    {
        self.role
    }

    /// Where the session stands.
    pub fn phase(&self) -> (phase: Phase)
        ensures
            phase == self.spec_phase(),
    {
        self.phase
    }

    /// The host to verify the peer against.
    pub fn peer_identity(&self) -> (host: Option<&String>)
        ensures
            match host {
                Some(name) => self.spec_peer_identity() == Some(name@),
                None => self.spec_peer_identity().is_none(),
            },
    {
        self.peer_identity.as_ref()
    }

    /// Whether application data may flow.
    pub fn is_established(&self) -> (established: bool)
        ensures
            established == (self.spec_phase() == Phase::Established),
    {
        match self.phase {
            Phase::Established => true,
            _ => false,
        }
    }

    /// Takes one event from the network: moves the session to its next
    /// phase and says what to do. The peer identity and the role never
    /// change.
    pub fn advance(&mut self, event: SessionEvent) -> (action: SessionAction)
        requires
            old(self).well_formed(),
        ensures
            final(self).well_formed(),
            final(self).spec_role() == old(self).spec_role(),
            final(self).spec_peer_identity() == old(self).spec_peer_identity(),
            (final(self).spec_phase(), action) == transition(
                old(self).spec_phase(),
                event,
                old(self).name_ok(),
            ),
    {
        let name_ok = match (&self.phase, &event, &self.peer_identity) {
            (Phase::Connecting, SessionEvent::TransportOpened, Some(host)) => server_name_accepted(
                host.as_str(),
            ),
            _ => true,
        };
        let (phase, action) = next_step(self.phase, event, name_ok);
        self.phase = phase;
        action
    }
}

/// A session that is established or has failed stays as it is, whatever
/// event comes: it is never used again.
pub proof fn lemma_finished_sessions_stay(phase: Phase, event: SessionEvent, name_ok: bool)
    requires
        phase == Phase::Established || phase is Failed,
    ensures
        transition(phase, event, name_ok) == (phase, SessionAction::Ignore),
{
}

/// A session becomes established in one way only: by a completed handshake
/// while it is negotiating. So the handshake is over before any
/// application data flows.
pub proof fn lemma_established_only_by_handshake(phase: Phase, event: SessionEvent, name_ok: bool)
    requires
        transition(phase, event, name_ok).0 == Phase::Established,
        phase != Phase::Established,
    ensures
        phase == Phase::Negotiating,
        event == SessionEvent::HandshakeCompleted,
        transition(phase, event, name_ok).1 == SessionAction::DeliverStream,
{
}

/// A session that stops while a transport is open or being opened has the
/// transport released: whenever a session under way fails, the action is
/// to release the transport, but for a transport that never opened, which
/// is only reported.
pub proof fn lemma_failure_releases_transport(phase: Phase, event: SessionEvent, name_ok: bool)
    requires
        phase == Phase::Connecting || phase == Phase::Negotiating,
        transition(phase, event, name_ok).0 is Failed,
    ensures
        transition(phase, event, name_ok).1 == (if event == SessionEvent::TransportFailed {
            SessionAction::ReportFailure
        } else {
            SessionAction::ReleaseTransport
        }),
{
}

} // verus!
