use easy_tokio_rustls::certificates::{load_certificates, Certificate, KeyKind, PrivateKey};
use easy_tokio_rustls::client::{TlsClient, TlsClientError};
use easy_tokio_rustls::server::TlsServer;
use easy_tokio_rustls::session::{
    next_step, HandshakeSession, Phase, Role, SessionAction, SessionError, SessionEvent,
};
use easy_tokio_rustls::{resolve_address, EasyTlsError, SocketAddress};

const LOCALHOST_CERT: &str = "-----BEGIN CERTIFICATE-----
MIIBlTCCATugAwIBAgIUQWvLEo6RL/yKpQaHVIew3PuQYQ0wCgYIKoZIzj0EAwIw
FDESMBAGA1UEAwwJbG9jYWxob3N0MCAXDTI2MTAyNzIxMzIxMFoYDzIxMjYxMDAz
MjEzMjEwWjAUMRIwEAYDVQQDDAlsb2NhbGhvc3QwWTATBgcqhkjOPQIBBggqhkjO
PQMBBwNCAAQaQ+N2t+UoHj9WCZJGnj90oVdqwEWLcbcIRCaGGWXxk91U5wQqg7Lr
84xuH8QoACjbrBJ2KKol3viA2taEMmFko2kwZzAdBgNVHQ4EFgQUf3jyTFvBWKh7
TqdaF9rpDvkeXJgwHwYDVR0jBBgwFoAUf3jyTFvBWKh7TqdaF9rpDvkeXJgwDwYD
VR0TAQH/BAUwAwEB/zAUBgNVHREEDTALgglsb2NhbGhvc3QwCgYIKoZIzj0EAwID
SAAwRQIgA55+QvkP7XV/mptpAIdMoP4PUrg75Lus7wULCgpVAfgCIQCuK+05lso/
N/HjFfP5zjgtzSRG/ReEIB09/c7MvZ8thw==
-----END CERTIFICATE-----
";

const LOCALHOST_KEY_DER: [u8; 138] = [
    48, 129, 135, 2, 1, 0, 48, 19, 6, 7, 42, 134, 72, 206, 61, 2, 1, 6, 8, 42, 134, 72, 206, 61,
    3, 1, 7, 4, 109, 48, 107, 2, 1, 1, 4, 32, 150, 201, 245, 239, 41, 100, 246, 184, 93, 242, 146,
    175, 213, 100, 161, 68, 84, 236, 99, 9, 68, 5, 158, 9, 226, 253, 26, 192, 220, 222, 42, 123,
    161, 68, 3, 66, 0, 4, 26, 67, 227, 118, 183, 229, 40, 30, 63, 86, 9, 146, 70, 158, 63, 116,
    161, 87, 106, 192, 69, 139, 113, 183, 8, 68, 38, 134, 25, 101, 241, 147, 221, 84, 231, 4, 42,
    131, 178, 235, 243, 140, 110, 31, 196, 40, 0, 40, 219, 172, 18, 118, 40, 170, 37, 222, 248,
    128, 218, 214, 132, 50, 97, 100,
];

fn loopback(port: u16) -> SocketAddress {
    SocketAddress::V4 { ip: 0x7f00_0001, port }
}

fn localhost_server() -> TlsServer {
    let chain = load_certificates(LOCALHOST_CERT.as_bytes()).unwrap();
    let keys = vec![PrivateKey { der: LOCALHOST_KEY_DER.to_vec(), kind: KeyKind::Pkcs8 }];
    match TlsServer::new("127.0.0.1:8443".to_string(), loopback(8443), chain, keys) {
        Ok(server) => server,
        Err(error) => panic!("unexpected error: {:?}", error),
    }
}

#[test]
fn first_answer_of_a_lookup_is_used() {
    let answers = [
        SocketAddress::V6 { ip: 1, port: 443, flowinfo: 0, scope_id: 0 },
        loopback(443),
    ];
    assert_eq!(resolve_address("localhost:443", &answers).unwrap(), answers[0]);
    assert_eq!(resolve_address("localhost:443", &answers[1..]).unwrap(), loopback(443));
}

#[test]
fn lookup_without_answers_is_a_resolution_failure() {
    match resolve_address("no-such-host.invalid:443", &[]) {
        Err(EasyTlsError::ResolutionFailure(host)) => {
            assert_eq!(host, "no-such-host.invalid:443");
        }
        other => panic!("unexpected result: {:?}", other),
    }
}

#[test]
fn client_keeps_host_port_and_first_address() {
    let answers = [loopback(8443), loopback(9999)];
    let client = TlsClient::new("localhost".to_string(), 8443, &answers).unwrap();
    assert_eq!(client.host(), "localhost");
    assert_eq!(client.port(), 8443);
    assert_eq!(client.address(), loopback(8443));
    assert_eq!(client.cafile(), None);
}

#[test]
fn client_for_unresolvable_host_is_refused_before_any_connection() {
    match TlsClient::new("no-such-host.invalid".to_string(), 443, &[]) {
        Err(TlsClientError::ResolutionFailure(host, port)) => {
            assert_eq!(host, "no-such-host.invalid");
            assert_eq!(port, 443);
        }
        Ok(_) => panic!("a client without an address"),
    }
}

#[test]
fn set_cafile_replaces_the_authority_file() {
    let mut client = TlsClient::new("localhost".to_string(), 8443, &[loopback(8443)]).unwrap();
    client.set_cafile("ca.pem".to_string());
    assert_eq!(client.cafile(), Some(&"ca.pem".to_string()));
    client.set_cafile("other.pem".to_string());
    assert_eq!(client.cafile(), Some(&"other.pem".to_string()));
    assert_eq!(client.host(), "localhost");
    assert_eq!(client.address(), loopback(8443));
}

#[test]
fn connect_with_trusted_issuer_reaches_an_established_session() {
    let mut client = TlsClient::new("localhost".to_string(), 8443, &[loopback(8443)]).unwrap();
    client.set_cafile("ca.pem".to_string());
    let mut connection = client.connect(Some(LOCALHOST_CERT.as_bytes())).unwrap();
    assert_eq!(connection.address, loopback(8443));
    assert_eq!(connection.trust_store.len(), 1);
    assert!(!connection.trust_store.is_default());
    assert_eq!(connection.session.role(), Role::Initiator);
    assert_eq!(connection.session.phase(), Phase::Connecting);
    assert_eq!(connection.session.peer_identity(), Some(&"localhost".to_string()));
    let action = connection.session.advance(SessionEvent::TransportOpened);
    assert_eq!(action, SessionAction::StartHandshake);
    assert_eq!(connection.session.phase(), Phase::Negotiating);
    assert!(!connection.session.is_established());
    let action = connection.session.advance(SessionEvent::HandshakeCompleted);
    assert_eq!(action, SessionAction::DeliverStream);
    assert!(connection.session.is_established());
}

#[test]
fn connect_with_default_roots_fails_the_handshake_of_a_private_issuer() {
    let client = TlsClient::new("localhost".to_string(), 8443, &[loopback(8443)]).unwrap();
    let mut connection = client.connect(None).unwrap();
    assert!(connection.trust_store.is_default());
    let issuer = easy_tokio_rustls::certstore::get_root_store(Some(LOCALHOST_CERT.as_bytes()))
        .unwrap();
    for i in 0..connection.trust_store.len() {
        assert_ne!(connection.trust_store.anchor(i).unwrap().subject, issuer.anchor(0).unwrap().subject);
    }
    assert_eq!(
        connection.session.advance(SessionEvent::TransportOpened),
        SessionAction::StartHandshake
    );
    let action = connection.session.advance(SessionEvent::HandshakeFailed);
    assert_eq!(action, SessionAction::ReleaseTransport);
    assert_eq!(connection.session.phase(), Phase::Failed(SessionError::Handshake));
    assert!(!connection.session.is_established());
}

#[test]
fn client_without_authority_file_trusts_the_public_roots_only() {
    let client = TlsClient::new("localhost".to_string(), 8443, &[loopback(8443)]).unwrap();
    let connection = client.connect(Some(LOCALHOST_CERT.as_bytes())).unwrap();
    assert!(connection.trust_store.is_default());
    assert!(connection.trust_store.len() > 1);
}

#[test]
fn unreadable_authority_file_never_falls_back_to_public_roots() {
    let mut client = TlsClient::new("localhost".to_string(), 8443, &[loopback(8443)]).unwrap();
    client.set_cafile("missing.pem".to_string());
    match client.connect(None) {
        Err(EasyTlsError::CertificateError(path)) => assert_eq!(path, "missing.pem"),
        other => panic!("unexpected result: {:?}", other),
    }
}

#[test]
fn connect_with_bad_authority_file_fails_before_the_network() {
    let mut client = TlsClient::new("localhost".to_string(), 8443, &[loopback(8443)]).unwrap();
    client.set_cafile("ca.pem".to_string());
    assert!(matches!(client.connect(Some(b"")), Err(EasyTlsError::EmptyTrustStore)));
    let text = "-----BEGIN CERTIFICATE-----\nbGVhZg==\n-----END X-----\n";
    assert!(matches!(
        client.connect(Some(text.as_bytes())),
        Err(EasyTlsError::LabelMismatch { index: 0, .. })
    ));
}

#[test]
fn cancelling_a_session_under_way_releases_the_transport() {
    let mut session = HandshakeSession::initiator("localhost".to_string());
    assert_eq!(session.advance(SessionEvent::Cancelled), SessionAction::ReleaseTransport);
    assert_eq!(session.phase(), Phase::Failed(SessionError::Cancelled));
    let mut session = HandshakeSession::responder();
    assert_eq!(session.advance(SessionEvent::Cancelled), SessionAction::ReleaseTransport);
    assert_eq!(session.phase(), Phase::Failed(SessionError::Cancelled));
    assert_eq!(session.advance(SessionEvent::HandshakeCompleted), SessionAction::Ignore);
    assert!(!session.is_established());
}

#[test]
fn sessions_are_established_by_a_completed_handshake_only() {
    let events = [
        SessionEvent::TransportOpened,
        SessionEvent::TransportFailed,
        SessionEvent::HandshakeCompleted,
        SessionEvent::HandshakeFailed,
        SessionEvent::Cancelled,
    ];
    let phases = [
        Phase::Connecting,
        Phase::Negotiating,
        Phase::Failed(SessionError::Transport),
        Phase::Failed(SessionError::InvalidServerName),
        Phase::Failed(SessionError::Handshake),
        Phase::Failed(SessionError::Cancelled),
    ];
    for phase in phases.iter() {
        for event in events.iter() {
            for name_ok in [true, false].iter() {
                let (next, action) = next_step(*phase, *event, *name_ok);
                let by_handshake =
                    *phase == Phase::Negotiating && *event == SessionEvent::HandshakeCompleted;
                assert_eq!(next == Phase::Established, by_handshake);
                assert_eq!(action == SessionAction::DeliverStream, by_handshake);
            }
        }
    }
}

#[test]
fn transport_failure_ends_the_session() {
    let mut session = HandshakeSession::initiator("localhost".to_string());
    assert_eq!(session.advance(SessionEvent::TransportFailed), SessionAction::ReportFailure);
    assert_eq!(session.phase(), Phase::Failed(SessionError::Transport));
    assert_eq!(session.advance(SessionEvent::TransportOpened), SessionAction::Ignore);
    assert_eq!(session.phase(), Phase::Failed(SessionError::Transport));
}

#[test]
fn host_that_is_no_server_name_fails_after_the_transport_opened() {
    let mut session = HandshakeSession::initiator("not a host name".to_string());
    assert_eq!(session.advance(SessionEvent::TransportOpened), SessionAction::ReleaseTransport);
    assert_eq!(session.phase(), Phase::Failed(SessionError::InvalidServerName));
}

#[test]
fn ip_address_is_a_server_name() {
    let mut session = HandshakeSession::initiator("127.0.0.1".to_string());
    assert_eq!(session.advance(SessionEvent::TransportOpened), SessionAction::StartHandshake);
    assert_eq!(session.phase(), Phase::Negotiating);
}

#[test]
fn events_out_of_turn_change_nothing() {
    let mut session = HandshakeSession::initiator("localhost".to_string());
    assert_eq!(session.advance(SessionEvent::HandshakeCompleted), SessionAction::Ignore);
    assert_eq!(session.phase(), Phase::Connecting);
    assert_eq!(session.advance(SessionEvent::HandshakeFailed), SessionAction::Ignore);
    assert_eq!(session.phase(), Phase::Connecting);
    session.advance(SessionEvent::TransportOpened);
    assert_eq!(session.advance(SessionEvent::TransportOpened), SessionAction::Ignore);
    assert_eq!(session.advance(SessionEvent::TransportFailed), SessionAction::Ignore);
    assert_eq!(session.phase(), Phase::Negotiating);
}

#[test]
fn finished_sessions_are_never_used_again() {
    let events = [
        SessionEvent::TransportOpened,
        SessionEvent::TransportFailed,
        SessionEvent::HandshakeCompleted,
        SessionEvent::HandshakeFailed,
        SessionEvent::Cancelled,
    ];
    let finished = [
        Phase::Established,
        Phase::Failed(SessionError::Transport),
        Phase::Failed(SessionError::InvalidServerName),
        Phase::Failed(SessionError::Handshake),
        Phase::Failed(SessionError::Cancelled),
    ];
    for phase in finished.iter() {
        for event in events.iter() {
            for name_ok in [true, false].iter() {
                assert_eq!(next_step(*phase, *event, *name_ok), (*phase, SessionAction::Ignore));
            }
        }
    }
}

#[test]
fn next_step_follows_the_table() {
    assert_eq!(
        next_step(Phase::Connecting, SessionEvent::TransportOpened, true),
        (Phase::Negotiating, SessionAction::StartHandshake)
    );
    assert_eq!(
        next_step(Phase::Connecting, SessionEvent::TransportOpened, false),
        (Phase::Failed(SessionError::InvalidServerName), SessionAction::ReleaseTransport)
    );
    assert_eq!(
        next_step(Phase::Connecting, SessionEvent::TransportFailed, true),
        (Phase::Failed(SessionError::Transport), SessionAction::ReportFailure)
    );
    assert_eq!(
        next_step(Phase::Negotiating, SessionEvent::HandshakeCompleted, false),
        (Phase::Established, SessionAction::DeliverStream)
    );
    assert_eq!(
        next_step(Phase::Negotiating, SessionEvent::HandshakeFailed, true),
        (Phase::Failed(SessionError::Handshake), SessionAction::ReleaseTransport)
    );
}

#[test]
fn server_takes_chain_and_first_key() {
    let server = localhost_server();
    assert_eq!(server.get_interface(), "127.0.0.1:8443");
    assert_eq!(server.address(), loopback(8443));
    assert_eq!(server.chain().len(), 1);
    assert_eq!(server.chain()[0].der.len(), 409);
}

#[test]
fn server_drops_keys_after_the_first() {
    let chain = load_certificates(LOCALHOST_CERT.as_bytes()).unwrap();
    let keys = vec![
        PrivateKey { der: LOCALHOST_KEY_DER.to_vec(), kind: KeyKind::Pkcs8 },
        PrivateKey { der: vec![0u8, 1u8], kind: KeyKind::Rsa },
    ];
    assert!(TlsServer::new("localhost:1".to_string(), loopback(1), chain, keys).is_ok());
    let chain = load_certificates(LOCALHOST_CERT.as_bytes()).unwrap();
    let keys = vec![
        PrivateKey { der: vec![0u8, 1u8], kind: KeyKind::Rsa },
        PrivateKey { der: LOCALHOST_KEY_DER.to_vec(), kind: KeyKind::Pkcs8 },
    ];
    assert!(matches!(
        TlsServer::new("localhost:1".to_string(), loopback(1), chain, keys),
        Err(EasyTlsError::InvalidPrivateKey)
    ));
}

#[test]
fn server_without_certificates_is_refused() {
    let keys = vec![PrivateKey { der: LOCALHOST_KEY_DER.to_vec(), kind: KeyKind::Pkcs8 }];
    assert!(matches!(
        TlsServer::new("localhost:1".to_string(), loopback(1), Vec::new(), keys),
        Err(EasyTlsError::EmptyChain)
    ));
}

#[test]
fn server_without_key_is_refused() {
    let chain = vec![Certificate { der: vec![1u8] }];
    assert!(matches!(
        TlsServer::new("localhost:1".to_string(), loopback(1), chain, Vec::new()),
        Err(EasyTlsError::NoPrivateKey)
    ));
}

#[test]
fn server_from_refused_key_is_an_error() {
    let refused = Err(tokio_rustls::rustls::Error::General("invalid private key".to_string()));
    let result = TlsServer::from_config(
        "localhost:1".to_string(),
        loopback(1),
        vec![Certificate { der: vec![1u8] }],
        PrivateKey { der: vec![2u8], kind: KeyKind::Pkcs8 },
        refused,
    );
    assert!(matches!(result, Err(EasyTlsError::InvalidPrivateKey)));
}

#[test]
fn accept_does_no_tls_work() {
    let server = localhost_server();
    let listener = server.listen();
    assert_eq!(listener.address(), loopback(8443));
    let peer = loopback(50000);
    let (stream, address) = listener.stream_accept(peer);
    assert_eq!(address, peer);
    assert_eq!(stream.peer(), peer);
    let session = stream.tls_accept(true).unwrap();
    assert!(session.is_established());
    assert_eq!(session.role(), Role::Responder);
    assert_eq!(session.peer_identity(), None);
}

#[test]
fn failed_negotiation_is_a_handshake_error() {
    let server = localhost_server();
    let listener = server.listen();
    let (stream, _) = listener.stream_accept(loopback(50001));
    assert_eq!(stream.tls_accept(false).unwrap_err(), SessionError::Handshake);
}

#[test]
fn one_failed_handshake_leaves_the_others_and_the_listener_alone() {
    let server = localhost_server();
    let listener = server.listen();
    let mut streams = Vec::new();
    for i in 0..8u16 {
        let (stream, address) = listener.stream_accept(loopback(50000 + i));
        assert_eq!(address, loopback(50000 + i));
        streams.push(stream);
    }
    let mut outcomes = Vec::new();
    for (i, stream) in streams.into_iter().rev().enumerate() {
        outcomes.push(stream.tls_accept(i != 3).map(|session| session.phase()));
    }
    for (i, outcome) in outcomes.iter().enumerate() {
        if i == 3 {
            assert_eq!(*outcome, Err(SessionError::Handshake));
        } else {
            assert_eq!(*outcome, Ok(Phase::Established));
        }
    }
    let (stream, _) = listener.stream_accept(loopback(60000));
    assert!(stream.tls_accept(true).unwrap().is_established());
    assert_eq!(listener.address(), loopback(8443));
}

#[test]
fn client_and_server_are_at_the_root_of_the_crate() {
    let client = easy_tokio_rustls::TlsClient::new("localhost".to_string(), 1, &[loopback(1)]);
    assert!(client.is_ok());
    let chain = load_certificates(LOCALHOST_CERT.as_bytes()).unwrap();
    let keys = vec![PrivateKey { der: LOCALHOST_KEY_DER.to_vec(), kind: KeyKind::Pkcs8 }];
    let server = easy_tokio_rustls::TlsServer::new("lo".to_string(), loopback(1), chain, keys);
    match server {
        Ok(server) => {
            let listener: easy_tokio_rustls::TlsListener = server.listen();
            assert_eq!(listener.address(), loopback(1));
        }
        Err(error) => panic!("unexpected error: {:?}", error),
    }
}

#[test]
fn listener_and_connections_carry_the_identity_of_the_server() {
    let server = localhost_server();
    let chain = load_certificates(LOCALHOST_CERT.as_bytes()).unwrap();
    assert_eq!(server.identity().chain.len(), 1);
    assert_eq!(server.identity().chain[0].der, chain[0].der);
    assert_eq!(server.identity().key.der, LOCALHOST_KEY_DER.to_vec());
    assert_eq!(server.identity().key.kind, KeyKind::Pkcs8);
    let listener = server.listen();
    assert_eq!(listener.identity().chain[0].der, chain[0].der);
    assert_eq!(listener.identity().key.der, LOCALHOST_KEY_DER.to_vec());
    let (first, _) = listener.stream_accept(loopback(50000));
    let (second, _) = listener.stream_accept(loopback(50001));
    assert_eq!(first.identity().chain[0].der, chain[0].der);
    assert_eq!(first.identity().key.der, LOCALHOST_KEY_DER.to_vec());
    assert_eq!(second.identity().chain[0].der, chain[0].der);
    assert_eq!(second.identity().key.der, LOCALHOST_KEY_DER.to_vec());
    assert_eq!(first.tls_accept(false).unwrap_err(), SessionError::Handshake);
    assert_eq!(second.identity().key.der, LOCALHOST_KEY_DER.to_vec());
    assert_eq!(listener.identity().key.der, LOCALHOST_KEY_DER.to_vec());
}

#[test]
fn configuration_is_built_once_and_shared() {
    let server = localhost_server();
    let listener = server.listen();
    let other = server.listen();
    let (stream, _) = listener.stream_accept(loopback(50000));
    assert!(std::sync::Arc::ptr_eq(server.config(), listener.config()));
    assert!(std::sync::Arc::ptr_eq(server.config(), other.config()));
    assert!(std::sync::Arc::ptr_eq(listener.config(), stream.config()));
}

#[test]
fn server_keeps_the_first_key_of_several() {
    let chain = load_certificates(LOCALHOST_CERT.as_bytes()).unwrap();
    let keys = vec![
        PrivateKey { der: LOCALHOST_KEY_DER.to_vec(), kind: KeyKind::Pkcs8 },
        PrivateKey { der: vec![0u8, 1u8], kind: KeyKind::Rsa },
    ];
    match TlsServer::new("localhost:1".to_string(), loopback(1), chain, keys) {
        Ok(server) => {
            assert_eq!(server.identity().key.der, LOCALHOST_KEY_DER.to_vec());
            assert_eq!(server.identity().key.kind, KeyKind::Pkcs8);
        }
        Err(error) => panic!("unexpected error: {:?}", error),
    }
}

#[test]
fn empty_chain_is_refused_before_a_missing_key() {
    assert!(matches!(
        TlsServer::new("localhost:1".to_string(), loopback(1), Vec::new(), Vec::new()),
        Err(EasyTlsError::EmptyChain)
    ));
}
