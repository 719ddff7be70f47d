use quic_bootstrap::lifecycle::{ConnectionInfo, EndpointPhase, EndpointState, IdleWait,
    PendingConnection, SockAddr};
use quic_bootstrap::HandshakeError;

fn loopback(port: u16) -> SockAddr {
    SockAddr { a: 127, b: 0, c: 0, d: 0, port }
}

#[test]
fn wait_idle_immediate_with_zero_outstanding() {
    let mut e = EndpointState::bound();
    assert_eq!(e.outstanding, 0);
    let w = e.wait_idle();
    assert_eq!(w, IdleWait::Immediate);
    assert_eq!(e.phase, EndpointPhase::Closed);
}

#[test]
fn wait_idle_drains_outstanding() {
    let mut e = EndpointState::bound();
    assert!(e.begin_attempt());
    assert!(e.begin_attempt());
    let w = e.wait_idle();
    assert_eq!(w, IdleWait::MustDrain { outstanding: 2 });
    assert_eq!(e.phase, EndpointPhase::Draining);
    e.attempt_finished();
    e.attempt_finished();
    assert_eq!(e.outstanding, 0);
    e.drained();
    assert_eq!(e.phase, EndpointPhase::Closed);
}

#[test]
fn failed_handshake_keeps_server_accepting() {
    let mut e = EndpointState::bound();
    assert!(e.begin_attempt());
    let p = PendingConnection::AwaitingHandshake;
    let p = p.complete_handshake(Err(HandshakeError::VerificationRejected));
    assert_eq!(p, PendingConnection::Failed(HandshakeError::VerificationRejected));
    e.attempt_finished();
    // the endpoint stayed bound and accepts a further, valid attempt
    assert_eq!(e.phase, EndpointPhase::Bound);
    assert!(e.begin_attempt());
    let q = PendingConnection::AwaitingHandshake;
    let q = q.complete_handshake(Ok(loopback(5001)));
    assert_eq!(q.remote_address(), Some(loopback(5001)));
}

#[test]
fn closed_endpoint_refuses_new_attempts() {
    let mut e = EndpointState::bound();
    e.wait_idle();
    assert_eq!(e.phase, EndpointPhase::Closed);
    assert!(!e.begin_attempt());
    assert_eq!(e.outstanding, 0);
}

#[test]
fn pending_connection_two_phases() {
    let p = PendingConnection::AwaitingHandshake;
    // before the handshake resolves, no remote address is observable
    assert_eq!(p.remote_address(), None);
    let established = p.complete_handshake(Ok(loopback(5001)));
    assert_eq!(
        established,
        PendingConnection::Established(ConnectionInfo { remote: loopback(5001) })
    );
    assert_eq!(established.remote_address(), Some(loopback(5001)));
    // resolution is single-shot: a second outcome changes nothing
    let again = established.complete_handshake(Err(HandshakeError::Timeout));
    assert_eq!(again, established);
}

#[test]
fn failed_handshake_exposes_no_address() {
    let p = PendingConnection::AwaitingHandshake;
    let failed = p.complete_handshake(Err(HandshakeError::PeerUnreachable));
    assert_eq!(failed, PendingConnection::Failed(HandshakeError::PeerUnreachable));
    assert_eq!(failed.remote_address(), None);
}
