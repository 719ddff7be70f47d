//! Bootstrap layer for an encrypted, multiplexed transport over UDP:
//! identity material (a self-signed certificate and key with PEM
//! persistence), a pluggable certificate-verification policy,
//! role-specific endpoint configuration, and the two-phase connection
//! lifecycle of a bound endpoint.

use vstd::prelude::*;

pub mod base64;
pub mod config;
pub mod identity;
pub mod lifecycle;
pub mod pem_text;
pub mod policy;

verus! {

/// Reasons a single handshake attempt can fail. A handshake failure is
/// never fatal to the endpoint that owns the attempt.
#[derive(Clone, Copy, PartialEq, Eq, Structural, Debug)]
pub enum HandshakeError {
    NameMismatch,
    VerificationRejected,
    ProtocolMismatch,
    PeerUnreachable,
    Timeout,
}

/// Errors that abort the configuration or binding of an endpoint.
/// These are fatal to the affected endpoint and always propagate.
#[derive(Clone, Copy, PartialEq, Eq, Structural, Debug)]
pub enum BootstrapError {
    AddressInUse,
    BindPermissionDenied,
    CertificateGenerationFailed,
    CertificatePersistFailed,
    HandshakeFailed(HandshakeError),
    IdleWaitInterrupted,
}

} // verus!
