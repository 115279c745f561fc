//! Convenient building blocks for simple TLS sockets: PEM decoding of
//! certificate and key material, trust anchor stores, and the decision logic
//! of the client connector and the server listener.

use vstd::prelude::*;

pub mod encoding;
pub mod pem;
pub mod pem_theory;
pub mod certificates;
pub mod certstore;
pub mod session;
pub mod client;
pub mod server;

pub use crate::client::TlsClient;
pub use crate::server::{TlsListener, TlsServer};

verus! {

/// The errors that this crate returns directly.
#[derive(Debug)]
pub enum EasyTlsError {
    /// Returned for address resolution failures; holds the host or interface.
    ResolutionFailure(String),
    /// Returned when a file of certificates or keys could not be read;
    /// holds the path of the file.
    CertificateError(String),
    /// A PEM block whose closing label differs from its opening label.
    LabelMismatch { index: usize, begin: Vec<u8>, end: Vec<u8> },
    /// A PEM block whose body is not valid base64.
    InvalidBody { index: usize },
    /// The input is larger than the decoder's limit.
    OversizedInput { size: usize, limit: usize },
    /// A key file without any private key block.
    NoPrivateKey,
    /// A certificate authority file without any certificate block.
    EmptyTrustStore,
    /// A certificate block that is not a usable X.509 certificate.
    InvalidCertificate { index: usize },
    /// A server identity without any certificate.
    EmptyChain,
    /// A private key that the TLS engine cannot sign with.
    InvalidPrivateKey,
}

/// The mathematical value of an [`EasyTlsError`].
pub enum Failure {
    ResolutionFailure(Seq<char>),
    CertificateError(Seq<char>),
    LabelMismatch { index: nat, begin: Seq<u8>, end: Seq<u8> },
    InvalidBody { index: nat },
    OversizedInput { size: nat, limit: nat },
    NoPrivateKey,
    EmptyTrustStore,
    InvalidCertificate { index: nat },
    EmptyChain,
    InvalidPrivateKey,
}

impl View for EasyTlsError {
    type V = Failure;

    open spec fn view(&self) -> Failure {
        match *self {
            EasyTlsError::ResolutionFailure(host) => Failure::ResolutionFailure(host@),
            EasyTlsError::CertificateError(reason) => Failure::CertificateError(reason@),
            EasyTlsError::LabelMismatch { index, begin, end } => Failure::LabelMismatch {
                index: index as nat,
                begin: begin@,
                end: end@,
            },
            EasyTlsError::InvalidBody { index } => Failure::InvalidBody { index: index as nat },
            EasyTlsError::OversizedInput { size, limit } => Failure::OversizedInput {
                size: size as nat,
                limit: limit as nat,
            },
            EasyTlsError::NoPrivateKey => Failure::NoPrivateKey,
            EasyTlsError::EmptyTrustStore => Failure::EmptyTrustStore,
            EasyTlsError::InvalidCertificate { index } => Failure::InvalidCertificate {
                index: index as nat,
            },
            EasyTlsError::EmptyChain => Failure::EmptyChain,
            EasyTlsError::InvalidPrivateKey => Failure::InvalidPrivateKey,
        }
    }
}

impl EasyTlsError {
    /// Whether the error reports PEM text that is structurally wrong: a
    /// block closed under another label, or a body that is not base64.
    pub fn is_malformed_pem(&self) -> (malformed: bool)
        ensures
            malformed == (self@ is LabelMismatch || self@ is InvalidBody),
    {
        match self {
            EasyTlsError::LabelMismatch { .. } => true,
            EasyTlsError::InvalidBody { .. } => true,
            _ => false,
        }
    }
}

/// A resolved network address: an IP address and a port, as plain numbers.
#[derive(Debug, Clone, Copy, PartialEq, Eq, Structural)]
#[allow(inconsistent_fields)]
pub enum SocketAddress {
    /// An IPv4 address, its four octets in one big-endian number.
    V4 { ip: u32, port: u16 },
    /// An IPv6 address, its sixteen octets in one big-endian number.
    V6 { ip: u128, port: u16, flowinfo: u32, scope_id: u32 },
}

/// Picks the address to use among the answers of a lookup for `host`: the
/// first one. A lookup without answers is a resolution failure that names
/// the host.
pub fn resolve_address(host: &str, answers: &[SocketAddress]) -> (result: Result<
    SocketAddress,
    EasyTlsError,
>)
    ensures
        match result {
            Ok(address) => answers@.len() > 0 && address == answers@[0],
            Err(error) => answers@.len() == 0 && error@ == Failure::ResolutionFailure(host@),
        },
{
    if answers.len() == 0 {
        Err(EasyTlsError::ResolutionFailure(host.to_owned()))
    } else {
        Ok(answers[0])
    }
}

} // verus!
