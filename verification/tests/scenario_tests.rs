use std::sync::Arc;

use quic_bootstrap::config::configure_server;
use quic_bootstrap::identity::Identity;
use quic_bootstrap::lifecycle::{ConnectionInfo, EndpointState, PendingConnection, SockAddr};
use quic_bootstrap::policy::{verify, VerifyOutcome, VerifyPolicy};
use quic_bootstrap::HandshakeError;

// The permissive policy in the shape the crypto library consumes:
// every decision is delegated to the library's verified `verify`.
struct PermissiveVerifier;

impl rustls::client::ServerCertVerifier for PermissiveVerifier {
    fn verify_server_cert(
        &self,
        end_entity: &rustls::Certificate,
        intermediates: &[rustls::Certificate],
        _server_name: &rustls::ServerName,
        _scts: &mut dyn Iterator<Item = &[u8]>,
        _ocsp_response: &[u8],
        _now: std::time::SystemTime,
    ) -> Result<rustls::client::ServerCertVerified, rustls::Error> {
        let mut chain: Vec<Vec<u8>> = vec![end_entity.0.clone()];
        for c in intermediates {
            chain.push(c.0.clone());
        }
        match verify(&VerifyPolicy::Permissive, &chain, &None, &vec![], &vec![], 0) {
            VerifyOutcome::Accepted => Ok(rustls::client::ServerCertVerified::assertion()),
            VerifyOutcome::Rejected(_) => Err(rustls::Error::General("rejected".to_string())),
        }
    }
}

fn permissive_client_config() -> quinn::ClientConfig {
    let crypto = rustls::ClientConfig::builder()
        .with_safe_defaults()
        .with_custom_certificate_verifier(Arc::new(PermissiveVerifier))
        .with_no_client_auth();
    let mut cfg = quinn::ClientConfig::new(Arc::new(crypto));
    // fail fast instead of hanging on an unreachable peer
    let mut transport = quinn::TransportConfig::default();
    transport.max_idle_timeout(Some(quinn::IdleTimeout::from(quinn::VarInt::from_u32(2000))));
    cfg.transport_config(Arc::new(transport));
    cfg
}

#[test]
fn endpoints_bind_and_unreachable_peer_fails_as_error() {
    let rt = tokio::runtime::Runtime::new().unwrap();
    rt.block_on(async {
        // server endpoint at 127.0.0.1:5001 with an identity for "localhost"
        let id = Identity::generate(&vec!["localhost".to_string()]).unwrap();
        let server_cfg = configure_server(id).unwrap();
        let server_addr = "127.0.0.1:5001".parse().unwrap();
        let server = quinn::Endpoint::server(server_cfg.into_quic_config(), server_addr).unwrap();
        assert_eq!(server.local_addr().unwrap(), server_addr);

        // client endpoint at an ephemeral port, permissive verification
        let mut client = quinn::Endpoint::client("127.0.0.1:0".parse().unwrap()).unwrap();
        client.set_default_client_config(permissive_client_config());

        // nothing is bound at 127.0.0.1:5000: the attempt must fail,
        // and fail as an error, not abort the process
        let dead_addr = "127.0.0.1:5000".parse().unwrap();
        let attempt = client.connect(dead_addr, "localhost").unwrap();
        assert!(attempt.await.is_err());

        // the failure did not tear the endpoints down
        client.close(0u32.into(), b"done");
        server.close(0u32.into(), b"done");
        // with every connection closed, the idle wait returns
        client.wait_idle().await;
        server.wait_idle().await;
    });
}

#[test]
fn scenario_wrong_port_fails_right_port_succeeds() {
    // The bootstrap decisions of the loopback round trip, on the
    // library's connection model: an attempt on the unbound address
    // resolves as unreachable; the attempt on the live address
    // resolves to a connection whose remote address is that address.
    let mut client = EndpointState::bound();

    assert!(client.begin_attempt());
    let to_unbound = PendingConnection::AwaitingHandshake;
    let to_unbound = to_unbound.complete_handshake(Err(HandshakeError::PeerUnreachable));
    assert_eq!(to_unbound, PendingConnection::Failed(HandshakeError::PeerUnreachable));
    assert_eq!(to_unbound.remote_address(), None);
    client.attempt_finished();

    let live = SockAddr { a: 127, b: 0, c: 0, d: 0, port: 5001 };
    assert!(client.begin_attempt());
    let to_live = PendingConnection::AwaitingHandshake;
    let to_live = to_live.complete_handshake(Ok(live));
    assert_eq!(to_live, PendingConnection::Established(ConnectionInfo { remote: live }));
    assert_eq!(to_live.remote_address(), Some(live));
}
