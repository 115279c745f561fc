//! The accepting side: a server with a fixed identity, its listener, and
//! the connections that the listener accepts.

use vstd::prelude::*;
use std::sync::Arc;
use crate::certificates::{certificate_views, Certificate, KeyKind, PrivateKey};
use crate::session::{HandshakeSession, Phase, Role, SessionAction, SessionError, SessionEvent};
use crate::{EasyTlsError, Failure, SocketAddress};

verus! {

/// The server configuration of the TLS engine.
#[verifier::external_type_specification]
#[verifier::external_body]
pub struct ExServerConfig(tokio_rustls::rustls::ServerConfig);

/// The error type of the TLS engine.
#[verifier::external_type_specification]
#[verifier::external_body]
pub struct ExEngineError(tokio_rustls::rustls::Error);

/// Builds a `rustls::ServerConfig` with safe defaults, without client
/// authentication, by `with_single_cert` on the chain and the key. The
/// builder fails where the engine cannot make a signing key of the key's
/// bytes; for some key types that also draws on the system's random
/// source. So nothing is promised of the outcome: the caller handles both.
#[verifier::external_body]
pub(crate) fn build_server_config(chain: &Vec<Certificate>, key: &PrivateKey) -> (config: Result<
    tokio_rustls::rustls::ServerConfig,
    tokio_rustls::rustls::Error,
>) {
    let chain = chain.iter().map(|c| tokio_rustls::rustls::Certificate(c.der.clone())).collect();
    let key = tokio_rustls::rustls::PrivateKey(key.der.clone());
    tokio_rustls::rustls::ServerConfig::builder()
        .with_safe_defaults()
        .with_no_client_auth()
        .with_single_cert(chain, key)
}

/// The identity of a server: one certificate chain, leaf first, and the one
/// private key that belongs to it. It has no printable form, as the key has
/// none.
pub struct ConnectionIdentity {
    pub chain: Vec<Certificate>,
    pub key: PrivateKey,
}

/// The mathematical value of a [`ConnectionIdentity`].
pub struct IdentityView {
    pub chain: Seq<Seq<u8>>,
    pub key: (Seq<u8>, KeyKind),
}

impl View for ConnectionIdentity {
    type V = IdentityView;

    open spec fn view(&self) -> IdentityView {
        IdentityView { chain: certificate_views(self.chain@), key: self.key@ }
    }
}

/// A server for TLS connections on one interface, with one identity. The
/// identity and the engine's configuration are fixed when the server is
/// created, and shared, unchanged, with its listeners and their
/// connections.
pub struct TlsServer {
    config: Arc<tokio_rustls::rustls::ServerConfig>,
    identity: Arc<ConnectionIdentity>,
    address: SocketAddress,
    interface: String,
}

/// A listening server. It takes no part in the negotiations of the
/// connections it accepts, so none of them can change it.
pub struct TlsListener {
    address: SocketAddress,
    config: Arc<tokio_rustls::rustls::ServerConfig>,
    identity: Arc<ConnectionIdentity>,
}

/// An accepted connection that has not negotiated TLS yet.
pub struct TcpClientStream {
    peer: SocketAddress,
    session: HandshakeSession,
    config: Arc<tokio_rustls::rustls::ServerConfig>,
    identity: Arc<ConnectionIdentity>,
}

/// The library's own refusal of a chain and keys, before the TLS engine is
/// asked: a chain without a certificate, then a key file without a key.
pub open spec fn identity_refusal(
    chain: Seq<Seq<u8>>,
    keys: Seq<(Seq<u8>, KeyKind)>,
) -> Option<Failure> {
    if chain.len() == 0 {
        Some(Failure::EmptyChain)
    } else if keys.len() == 0 {
        Some(Failure::NoPrivateKey)
    } else {
        None
    }
}

impl TlsServer {
    /// The interface string that the server was created with.
    pub closed spec fn spec_interface(&self) -> Seq<char> {
        self.interface@
    }

    /// The address that the interface resolved to.
    pub closed spec fn spec_address(&self) -> SocketAddress {
        self.address
    }

    /// The configuration of the TLS engine that the server was built with.
    pub closed spec fn spec_config(&self) -> tokio_rustls::rustls::ServerConfig {
        *self.config
    }

    /// The identity of the server.
    pub closed spec fn spec_identity(&self) -> IdentityView {
        self.identity@
    }

    /// The certificate chain of the server, leaf first.
    pub open spec fn spec_chain(&self) -> Seq<Seq<u8>> {
        self.spec_identity().chain
    }

    /// The private key of the server.
    pub open spec fn spec_key(&self) -> (Seq<u8>, KeyKind) {
        self.spec_identity().key
    }

    /// The invariant of the type: the chain is not empty.
    pub open spec fn well_formed(&self) -> bool {
        self.spec_chain().len() > 0
    }

    /// Puts a server together from the engine's answer on its identity:
    /// with the configuration, the server; with the engine's refusal, the
    /// error that says the key is not usable.
    pub fn from_config(
        interface: String,
        address: SocketAddress,
        chain: Vec<Certificate>,
        key: PrivateKey,
        config: Result<tokio_rustls::rustls::ServerConfig, tokio_rustls::rustls::Error>,
    ) -> (result: Result<TlsServer, EasyTlsError>)
        ensures
            match config {
                Ok(built) => result matches Ok(server) && server.spec_interface() == interface@
                    && server.spec_address() == address && server.spec_chain() == certificate_views(
                    chain@,
                ) && server.spec_key() == key@ && server.spec_config() == built,
                Err(_) => result matches Err(error) && error@ == Failure::InvalidPrivateKey,
            },
    {
        match config {
            Ok(config) => Ok(
                TlsServer {
                    config: Arc::new(config),
                    identity: Arc::new(ConnectionIdentity { chain, key }),
                    address,
                    interface,
                },
            ),
            Err(_) => Err(EasyTlsError::InvalidPrivateKey),
        }
    }

    /// Creates a server for `interface`, which resolved to `address`, with
    /// the certificates and keys loaded from its two files. The server's
    /// key is the first of `keys`; any others are dropped. The
    /// configuration of the TLS engine is built here, once.
    ///
    /// A chain without a certificate is refused, then a list without a
    /// key. Otherwise the TLS engine decides: the result is the server with
    /// this interface, address, chain and first key, or the error that says
    /// the key is not usable.
    pub fn new(
        interface: String,
        address: SocketAddress,
        certificates: Vec<Certificate>,
        keys: Vec<PrivateKey>,
    ) -> (result: Result<TlsServer, EasyTlsError>)
        ensures
            match identity_refusal(
                certificate_views(certificates@),
                crate::certificates::key_views(keys@),
            ) {
                Some(failure) => result matches Err(error) && error@ == failure,
                None => match result {
                    Ok(server) => {
                        &&& server.well_formed()
                        &&& server.spec_interface() == interface@
                        &&& server.spec_address() == address
                        &&& server.spec_chain() == certificate_views(certificates@)
                        &&& server.spec_key() == crate::certificates::key_views(keys@)[0]
                    },
                    Err(error) => error@ == Failure::InvalidPrivateKey,
                },
            },
    {
        if certificates.len() == 0 {
            return Err(EasyTlsError::EmptyChain);
        }
        assert(certificate_views(certificates@).len() == certificates@.len());
        assert(crate::certificates::key_views(keys@).len() == keys@.len());
        assert(keys@.len() > 0 ==> crate::certificates::key_views(keys@)[0] == keys@[0]@);
        let key = match crate::certificates::first_key(keys) {
            Ok(key) => key,
            Err(error) => {
                return Err(error);
            },
        };
        let config = build_server_config(&certificates, &key);
        TlsServer::from_config(interface, address, certificates, key, config)
    }

    /// Starts the listening side of the server: the listener for the
    /// server's address, which negotiates with the server's identity and
    /// configuration as they were fixed when the server was created.
    pub fn listen(&self) -> (listener: TlsListener)
        ensures
            listener.spec_address() == self.spec_address(),
            listener.spec_identity() == self.spec_identity(),
            listener.spec_config() == self.spec_config(),
    {
        TlsListener {
            address: self.address,
            config: self.config.clone(),
            identity: self.identity.clone(),
        }
    }

    /// Returns the interface string that was used during creation.
    pub fn get_interface(&self) -> (interface: &String)
        ensures
            interface@ == self.spec_interface(),
    {
        &self.interface
    }

    /// The address that the interface resolved to.
    pub fn address(&self) -> (address: SocketAddress)
        ensures
            address == self.spec_address(),
    {
        self.address
    }

    /// The configuration of the TLS engine, built when the server was
    /// created and used for every connection.
    pub fn config(&self) -> (config: &Arc<tokio_rustls::rustls::ServerConfig>)
        ensures
            **config == self.spec_config(),
    {
        &self.config
    }

    /// The identity of the server.
    pub fn identity(&self) -> (identity: &ConnectionIdentity)
        ensures
            identity@ == self.spec_identity(),
    {
        &self.identity
    }

    /// The certificate chain of the server, leaf first.
    pub fn chain(&self) -> (chain: &Vec<Certificate>)
        ensures
            certificate_views(chain@) == self.spec_chain(),
    {
        &self.identity.chain
    }
}

impl TlsListener {
    /// The address that the listener is bound to.
    pub closed spec fn spec_address(&self) -> SocketAddress {
        self.address
    }

    /// The identity that the listener's connections negotiate with.
    pub closed spec fn spec_identity(&self) -> IdentityView {
        self.identity@
    }

    /// The configuration of the TLS engine that the listener's connections
    /// negotiate with.
    pub closed spec fn spec_config(&self) -> tokio_rustls::rustls::ServerConfig {
        *self.config
    }

    /// The address that the listener is bound to.
    pub fn address(&self) -> (address: SocketAddress)
        ensures
            address == self.spec_address(),
    {
        self.address
    }

    /// The identity that the listener's connections negotiate with.
    pub fn identity(&self) -> (identity: &ConnectionIdentity)
        ensures
            identity@ == self.spec_identity(),
    {
        &self.identity
    }

    /// The configuration of the TLS engine that the listener's connections
    /// negotiate with.
    pub fn config(&self) -> (config: &Arc<tokio_rustls::rustls::ServerConfig>)
        ensures
            **config == self.spec_config(),
    {
        &self.config
    }

    /// Takes the next accepted transport connection, which came from
    /// `peer`. No TLS work is done: the connection is returned ready to
    /// negotiate with the listener's identity and configuration, with the
    /// peer's address beside it. The listener itself does not change.
    pub fn stream_accept(&self, peer: SocketAddress) -> (accepted: (TcpClientStream, SocketAddress))
        ensures
            accepted.1 == peer,
            accepted.0.spec_peer() == peer,
            accepted.0.well_formed(),
            accepted.0.spec_identity() == self.spec_identity(),
            accepted.0.spec_config() == self.spec_config(),
    {
        (
            TcpClientStream {
                peer,
                session: HandshakeSession::responder(),
                config: self.config.clone(),
                identity: self.identity.clone(),
            },
            peer,
        )
    }
}

impl TcpClientStream {
    /// The address of the peer.
    pub closed spec fn spec_peer(&self) -> SocketAddress {
        self.peer
    }

    /// The session of the connection.
    pub closed spec fn spec_session(&self) -> HandshakeSession {
        self.session
    }

    /// The identity that the connection negotiates with.
    pub closed spec fn spec_identity(&self) -> IdentityView {
        self.identity@
    }

    /// The configuration of the TLS engine that the connection negotiates
    /// with.
    pub closed spec fn spec_config(&self) -> tokio_rustls::rustls::ServerConfig {
        *self.config
    }

    /// The invariant of the type: the connection is a responder's, open
    /// and not negotiated yet.
    pub open spec fn well_formed(&self) -> bool {
        &&& self.spec_session().well_formed()
        &&& self.spec_session().spec_role() == Role::Responder
        &&& self.spec_session().spec_phase() == Phase::Negotiating
    }

    /// The address of the peer.
    pub fn peer(&self) -> (peer: SocketAddress)
        ensures
            peer == self.spec_peer(),
    {
        self.peer
    }

    /// The identity that the connection negotiates with.
    pub fn identity(&self) -> (identity: &ConnectionIdentity)
        ensures
            identity@ == self.spec_identity(),
    {
        &self.identity
    }

    /// The configuration of the TLS engine that the connection negotiates
    /// with.
    pub fn config(&self) -> (config: &Arc<tokio_rustls::rustls::ServerConfig>)
        ensures
            **config == self.spec_config(),
    {
        &self.config
    }

    /// Ends the negotiation of this connection with what the TLS engine
    /// reported: `completed` says whether the handshake succeeded. The
    /// connection is used up either way. On success the session is
    /// established; on failure the error is a handshake error and the
    /// session is gone.
    pub fn tls_accept(self, completed: bool) -> (result: Result<HandshakeSession, SessionError>)
        requires
            self.well_formed(),
        ensures
            match result {
                Ok(session) => {
                    &&& completed
                    &&& session.well_formed()
                    &&& session.spec_phase() == Phase::Established
                    &&& session.spec_role() == Role::Responder
                },
                Err(error) => !completed && error == SessionError::Handshake,
            },
    {
        let mut session = self.session;
        let event = if completed {
            SessionEvent::HandshakeCompleted
        } else {
            SessionEvent::HandshakeFailed
        };
        let action = session.advance(event);
        match action {
            SessionAction::DeliverStream => Ok(session),
            _ => Err(SessionError::Handshake),
        }
    }
}

} // verus!
