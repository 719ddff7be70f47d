//! The identity provider: a self-signed certificate and private key
//! for a set of hostnames, held as DER bytes, rendered to PEM for
//! persistence and reloadable from it.

use vstd::prelude::*;
use vstd::utf8::is_ascii_chars;
use crate::BootstrapError;
use crate::pem_text::{lemma_pem_round_trip, pem_decode, pem_encode, spec_pem_decode,
    spec_pem_encode};

verus! {

/// The PEM tag of the certificate artifact: the bytes of `CERTIFICATE`.
pub open spec fn spec_cert_tag() -> Seq<u8> {
    seq![67u8, 69u8, 82u8, 84u8, 73u8, 70u8, 73u8, 67u8, 65u8, 84u8, 69u8]
}

/// The PEM tag of the key artifact: the bytes of `PRIVATE KEY`.
pub open spec fn spec_key_tag() -> Seq<u8> {
    seq![80u8, 82u8, 73u8, 86u8, 65u8, 84u8, 69u8, 32u8, 75u8, 69u8, 89u8]
}

fn cert_tag() -> (r: Vec<u8>)
    ensures
        r@ == spec_cert_tag(),
{
    let mut t: Vec<u8> = Vec::new();
    t.push(67);
    t.push(69);
    t.push(82);
    t.push(84);
    t.push(73);
    t.push(70);
    t.push(73);
    t.push(67);
    t.push(65);
    t.push(84);
    t.push(69);
    proof {
        assert(t@ =~= spec_cert_tag());
    }
    t
}

fn key_tag() -> (r: Vec<u8>)
    ensures
        r@ == spec_key_tag(),
{
    let mut t: Vec<u8> = Vec::new();
    t.push(80);
    t.push(82);
    t.push(73);
    t.push(86);
    t.push(65);
    t.push(84);
    t.push(69);
    t.push(32);
    t.push(75);
    t.push(69);
    t.push(89);
    proof {
        assert(t@ =~= spec_key_tag());
    }
    t
}

/// The error type of the certificate generator.
#[verifier::external_type_specification]
#[verifier::external_body]
pub struct ExRcgenError(rcgen::RcgenError);

/// Whether every hostname is plain ASCII — the shape of a DNS name.
/// The certificate generator writes non-IP names as IA5 strings, whose
/// writer accepts ASCII only, so this is also what keeps the
/// generation call panic-free.
pub open spec fn spec_ascii_hostnames(hostnames: Seq<String>) -> bool {
    forall|i: int| 0 <= i < hostnames.len() ==> is_ascii_chars(#[trigger] hostnames[i]@)
}

/// Relies on rcgen::generate_simple_self_signed, then
/// rcgen::Certificate::serialize_der and serialize_private_key_der, to
/// produce the DER encodings of a fresh self-signed certificate for
/// the given names and of its private key. The names must be ASCII: a
/// non-IP name becomes a DNS subject-alt-name, serialized as an IA5
/// string whose writer asserts ASCII. The signature is randomized, so
/// nothing is promised of the bytes beyond non-emptiness (both
/// serializers write at least a DER header); the key pair is generated
/// locally by the same call, so serialize_private_key_der cannot hit
/// its remote-key panic.
#[verifier::external_body]
fn generate_self_signed_der(hostnames: &Vec<String>) -> (r: Result<
    (Vec<u8>, Vec<u8>),
    rcgen::RcgenError,
>)
    requires
        spec_ascii_hostnames(hostnames@),
    ensures
        r matches Ok(ders) ==> ders.0@.len() > 0 && ders.1@.len() > 0,
{
    let cert = rcgen::generate_simple_self_signed(hostnames.clone())?;
    let cert_der = cert.serialize_der()?;
    let key_der = cert.serialize_private_key_der();
    Ok((cert_der, key_der))
}

/// An endpoint's identity: one certificate and its private key, both
/// as DER bytes. Created once per server lifetime; immutable after
/// creation.
pub struct Identity {
    pub cert_der: Vec<u8>,
    pub key_der: Vec<u8>,
}

impl Identity {
    /// Generate a self-signed identity bound to the given names: a
    /// non-empty set of DNS-name-like (ASCII) strings. Fails — fatally,
    /// for the surrounding configuration step — exactly when the
    /// underlying signing operation fails; a success carries non-empty
    /// DER encodings for both the certificate and the key.
    pub fn generate(hostnames: &Vec<String>) -> (r: Result<Identity, BootstrapError>)
        requires
            hostnames@.len() > 0,
            spec_ascii_hostnames(hostnames@),
        ensures
            r matches Ok(id) ==> id.cert_der@.len() > 0 && id.key_der@.len() > 0,
            r matches Err(e) ==> e == BootstrapError::CertificateGenerationFailed,
    {
        match generate_self_signed_der(hostnames) {
            Ok(ders) => Ok(Identity { cert_der: ders.0, key_der: ders.1 }),
            Err(_) => Err(BootstrapError::CertificateGenerationFailed),
        }
    }

    /// The PEM rendering of the certificate, as written to durable
    /// storage.
    pub fn cert_pem(&self) -> (r: Vec<u8>)
        ensures
            r@ == spec_pem_encode(spec_cert_tag(), self.cert_der@),
    {
        let tag = cert_tag();
        pem_encode(&tag, &self.cert_der)
    }

    /// The PEM rendering of the private key, as written to durable
    /// storage.
    pub fn key_pem(&self) -> (r: Vec<u8>)
        ensures
            r@ == spec_pem_encode(spec_key_tag(), self.key_der@),
    {
        let tag = key_tag();
        pem_encode(&tag, &self.key_der)
    }

    /// Reload an identity from its two persisted PEM artifacts.
    /// Succeeds exactly when both parse under their tags, and then
    /// carries their DER bytes.
    pub fn from_pem(cert_pem: &Vec<u8>, key_pem: &Vec<u8>) -> (r: Option<Identity>)
        ensures
            r is Some <==> (spec_pem_decode(spec_cert_tag(), cert_pem@) is Some && spec_pem_decode(
                spec_key_tag(),
                key_pem@,
            ) is Some),
            r matches Some(id) ==> Some(id.cert_der@) == spec_pem_decode(
                spec_cert_tag(),
                cert_pem@,
            ) && Some(id.key_der@) == spec_pem_decode(spec_key_tag(), key_pem@),
    {
        let ctag = cert_tag();
        let ktag = key_tag();
        let cert_der = pem_decode(&ctag, cert_pem);
        let key_der = pem_decode(&ktag, key_pem);
        match (cert_der, key_der) {
            (Some(c), Some(k)) => Some(Identity { cert_der: c, key_der: k }),
            _ => None,
        }
    }
}

/// The persistence round-trip law: rendering an identity's two PEM
/// artifacts and reloading them yields DER encodings bit-identical to
/// the ones that were written, for every identity.
pub proof fn lemma_identity_persist_reload(id: Identity)
    ensures
        spec_pem_decode(spec_cert_tag(), spec_pem_encode(spec_cert_tag(), id.cert_der@)) == Some(
            id.cert_der@,
        ),
        spec_pem_decode(spec_key_tag(), spec_pem_encode(spec_key_tag(), id.key_der@)) == Some(
            id.key_der@,
        ),
{
    lemma_pem_round_trip(spec_cert_tag(), id.cert_der@);
    lemma_pem_round_trip(spec_key_tag(), id.key_der@);
}

} // verus!
