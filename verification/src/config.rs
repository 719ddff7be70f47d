//! The endpoint configurator: role-specific configuration binding a
//! server's identity (certificate chain and key, with its transport
//! tuning) or a client's verification policy.

use vstd::prelude::*;
use crate::BootstrapError;
use crate::identity::Identity;
use crate::policy::VerifyPolicy;

verus! {

/// The transport library's server-side configuration.
#[verifier::external_type_specification]
#[verifier::external_body]
pub struct ExQuinnServerConfig(quinn::ServerConfig);

/// The crypto library's error type, as construction of a TLS context
/// reports it.
#[verifier::external_type_specification]
#[verifier::external_body]
pub struct ExRustlsError(rustls::Error);

/// Whether the crypto library accepts this certificate chain and
/// private key as a TLS server identity. Acceptance is a deterministic
/// function of the two DER encodings alone: the crypto library parses
/// the key bytes and pairs them with the chain, and nothing else
/// decides.
pub uninterp spec fn single_cert_ok(cert: Seq<u8>, key: Seq<u8>) -> bool;

/// Relies on quinn::ServerConfig::with_single_cert: builds a server
/// configuration presenting exactly the given certificate chain (here
/// a single self-signed certificate) with the given private key. It
/// returns the configuration, or the crypto library's error exactly
/// where that library finds the pair malformed or incompatible —
/// deterministically in the two DER encodings, which `single_cert_ok`
/// names.
#[verifier::external_body]
fn server_config_with_single_cert(cert_der: &Vec<u8>, key_der: &Vec<u8>) -> (r: Result<
    quinn::ServerConfig,
    rustls::Error,
>)
    ensures
        r is Ok <==> single_cert_ok(cert_der@, key_der@),
{
    let chain = vec![rustls::Certificate(cert_der.clone())];
    let key = rustls::PrivateKey(key_der.clone());
    quinn::ServerConfig::with_single_cert(chain, key)
}

/// Relies on quinn::TransportConfig::max_concurrent_uni_streams: a
/// fresh transport configuration allowing at most `limit` concurrent
/// unidirectional streams replaces the configuration's default. The
/// limit itself is chosen by the verified caller.
#[verifier::external_body]
fn apply_max_uni_streams(cfg: &mut quinn::ServerConfig, limit: u32) {
    let mut transport = quinn::TransportConfig::default();
    transport.max_concurrent_uni_streams(limit.into());
    cfg.transport = std::sync::Arc::new(transport);
}

/// A server's configuration: the transport-library configuration it
/// was compiled to, the certificate it presents, and the transport
/// tuning the model reasons about.
pub struct ServerConfiguration {
    pub quic: quinn::ServerConfig,
    pub cert_der: Vec<u8>,
    pub max_uni_streams: u64,
}

impl ServerConfiguration {
    /// This deployment forbids unidirectional streams: only
    /// bidirectional ones are accepted.
    pub open spec fn forbids_uni(self) -> bool {
        self.max_uni_streams == 0
    }

    /// The transport-library configuration, for binding the endpoint.
    pub fn into_quic_config(self) -> quinn::ServerConfig {
        self.quic
    }

    /// The DER bytes of the certificate this server presents.
    pub fn cert_der(&self) -> (r: &Vec<u8>)
        ensures
            r@ == self.cert_der@,
    {
        &self.cert_der
    }
}

/// Whether a configured server would grant a peer's request to open
/// one more unidirectional stream, `open_now` of them being open.
pub open spec fn spec_may_open_uni(c: ServerConfiguration, open_now: u64) -> bool {
    open_now < c.max_uni_streams
}

/// Build the server configuration for an identity: its certificate
/// chain and key become the TLS server identity, and the transport is
/// tuned to forbid unidirectional streams. Succeeds exactly where the
/// crypto library accepts the certificate/key pair; the failure is
/// fatal and typed.
pub fn configure_server(identity: Identity) -> (r: Result<ServerConfiguration, BootstrapError>)
    ensures
        r is Ok <==> single_cert_ok(identity.cert_der@, identity.key_der@),
        r matches Ok(c) ==> c.forbids_uni() && c.max_uni_streams == 0 && c.cert_der@
            == identity.cert_der@,
        r matches Err(e) ==> e == BootstrapError::CertificateGenerationFailed,
{
    match server_config_with_single_cert(&identity.cert_der, &identity.key_der) {
        Ok(quic) => {
            let mut quic = quic;
            let uni_limit: u32 = 0;
            apply_max_uni_streams(&mut quic, uni_limit);
            Ok(ServerConfiguration {
                quic,
                cert_der: identity.cert_der,
                max_uni_streams: uni_limit as u64,
            })
        },
        Err(_) => Err(BootstrapError::CertificateGenerationFailed),
    }
}

/// The stream-admission rule the transport tuning stands for: a
/// request to open one more unidirectional stream is granted only
/// under the configured maximum.
pub fn may_open_uni_stream(cfg: &ServerConfiguration, open_now: u64) -> (r: bool)
    ensures
        r == spec_may_open_uni(*cfg, open_now),
        cfg.forbids_uni() ==> r == false,
{
    open_now < cfg.max_uni_streams
}

/// A server configured to forbid unidirectional streams refuses every
/// attempt to open one, however many are open — it never admits one,
/// so none can be converted into anything else.
pub proof fn lemma_forbid_uni_refuses_all(c: ServerConfiguration, open_now: u64)
    requires
        c.forbids_uni(),
    ensures
        !spec_may_open_uni(c, open_now),
{
}

/// A client's configuration: every handshake defers certificate
/// acceptance to the given verification policy instead of a standard
/// trust-store lookup, and no client certificate is presented.
pub struct ClientConfiguration {
    pub policy: VerifyPolicy,
}

/// Build the client configuration around a verification policy. The
/// model construction itself cannot fail; compiling it into a crypto
/// context can, and that failure stays with the code that does so.
pub fn configure_client(policy: VerifyPolicy) -> (r: ClientConfiguration)
    ensures
        r.policy == policy,
{
    ClientConfiguration { policy }
}

} // verus!
