//! The connecting side: a client for one host and port.

use vstd::prelude::*;
use crate::certificates::{certificates_in, file_blocks};
use crate::certstore::{
    anchors_outcome, are_public_roots, get_cafile_store, get_default_store, TrustSource,
    TrustStore,
};
use crate::session::{HandshakeSession, Phase, Role};
use crate::{EasyTlsError, Failure, SocketAddress};

verus! {

/// The errors that creating a [`TlsClient`] may return.
#[derive(Debug)]
pub enum TlsClientError {
    /// The lookup for this host and port gave no address.
    ResolutionFailure(String, u16),
}

/// One connection attempt that is ready to start: the trust store to
/// validate the server against, the address to dial, and the session that
/// follows the attempt.
#[derive(Debug)]
pub struct ClientConnection {
    pub trust_store: TrustStore,
    pub address: SocketAddress,
    pub session: HandshakeSession,
}

/// A client for TLS connections to one host.
#[derive(Debug)]
pub struct TlsClient {
    host: String,
    port: u16,
    address: SocketAddress,
    cafile: Option<String>,
}

impl TlsClient {
    /// The host that the client connects to and verifies.
    pub closed spec fn spec_host(&self) -> Seq<char> {
        self.host@
    }

    /// The port that the client connects to.
    pub closed spec fn spec_port(&self) -> u16 {
        self.port
    }

    /// The address that the host resolved to.
    pub closed spec fn spec_address(&self) -> SocketAddress {
        self.address
    }

    /// The path of the certificate authority file, if one is set.
    pub closed spec fn spec_cafile(&self) -> Option<Seq<char>> {
        match self.cafile {
            Some(path) => Some(path@),
            None => None,
        }
    }

    /// Creates a client for `host` and `port` from the answers of an
    /// address lookup for them. The client uses the first answer; without
    /// any, the resolution has failed. No authority file is set, so the
    /// client trusts the built-in public roots.
    pub fn new(host: String, port: u16, answers: &[SocketAddress]) -> (result: Result<
        TlsClient,
        TlsClientError,
    >)
        ensures
            match result {
                Ok(client) => {
                    &&& answers@.len() > 0
                    &&& client.spec_host() == host@
                    &&& client.spec_port() == port
                    &&& client.spec_address() == answers@[0]
                    &&& client.spec_cafile().is_none()
                },
                Err(TlsClientError::ResolutionFailure(name, number)) => {
                    &&& answers@.len() == 0
                    &&& name@ == host@
                    &&& number == port
                },
            },
    {
        if answers.len() == 0 {
            return Err(TlsClientError::ResolutionFailure(host, port));
        }
        Ok(TlsClient { host, port, address: answers[0], cafile: None })
    }

    /// Sets the certificate authority file to use instead of the built-in
    /// public roots.
    pub fn set_cafile(&mut self, cafile: String)
        ensures
            final(self).spec_cafile() == Some(cafile@),
            final(self).spec_host() == old(self).spec_host(),
            final(self).spec_port() == old(self).spec_port(),
            final(self).spec_address() == old(self).spec_address(),
    {
        self.cafile = Some(cafile);
    }

    /// The host that the client connects to and verifies.
    pub fn host(&self) -> (host: &String)
        ensures
            host@ == self.spec_host(),
    {
        &self.host
    }

    /// The port that the client connects to.
    pub fn port(&self) -> (port: u16)
        ensures
            port == self.spec_port(),
    {
        self.port
    }

    /// The address that the host resolved to.
    pub fn address(&self) -> (address: SocketAddress)
        ensures
            address == self.spec_address(),
    {
        self.address
    }

    /// The path of the certificate authority file, if one is set.
    pub fn cafile(&self) -> (cafile: Option<&String>)
        ensures
            match cafile {
                Some(path) => self.spec_cafile() == Some(path@),
                None => self.spec_cafile().is_none(),
            },
    {
        self.cafile.as_ref()
    }

    /// Prepares one connection attempt. `cafile_text` is the content of the
    /// client's authority file, or `None` where there is none to give:
    /// because the client has no authority file, or because the file could
    /// not be read.
    ///
    /// A client without an authority file trusts the built-in public roots,
    /// whatever text it is given. A client with one trusts exactly the
    /// certificates of that file; if its text is missing the attempt fails
    /// with a certificate error that holds the file's path, and never falls
    /// back to the public roots.
    ///
    /// The trust store is built first, so that bad trust material fails the
    /// attempt before anything touches the network. On success the session
    /// is that of an initiator for this client's host, about to open its
    /// transport to this client's address.
    pub fn connect(&self, cafile_text: Option<&[u8]>) -> (result: Result<
        ClientConnection,
        EasyTlsError,
    >)
        ensures
            match (self.spec_cafile(), cafile_text) {
                (None, _) => result matches Ok(connection) && are_public_roots(
                    connection.trust_store.anchors(),
                ) && connection.trust_store.source() == TrustSource::PublicRoots,
                (Some(path), None) => result matches Err(error) && error@
                    == Failure::CertificateError(path),
                (Some(_), Some(text)) => match file_blocks(text@) {
                    Ok(blocks) => anchors_outcome(
                        certificates_in(blocks),
                        match result {
                            Ok(connection) => Ok(connection.trust_store.anchors()),
                            Err(error) => Err(error@),
                        },
                    ) && (result matches Ok(connection) ==> connection.trust_store.source()
                        == TrustSource::AuthorityFile),
                    Err(failure) => result matches Err(error) && error@ == failure,
                },
            },
            result matches Ok(connection) ==> {
                &&& connection.trust_store.well_formed()
                &&& connection.address == self.spec_address()
                &&& connection.session.well_formed()
                &&& connection.session.spec_role() == Role::Initiator
                &&& connection.session.spec_peer_identity() == Some(self.spec_host())
                &&& connection.session.spec_phase() == Phase::Connecting
            },
    {
        let trust_store = match &self.cafile {
            None => get_default_store(),
            Some(path) => match cafile_text {
                None => {
                    return Err(EasyTlsError::CertificateError(path.clone()));
                },
                Some(text) => match get_cafile_store(text) {
                    Ok(store) => store,
                    Err(error) => {
                        return Err(error);
                    },
                },
            },
        };
        let session = HandshakeSession::initiator(self.host.clone());
        Ok(ClientConnection { trust_store, address: self.address, session })
    }
}

} // verus!
