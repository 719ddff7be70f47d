//! Certificate-verification policy: the decision procedure that accepts
//! or rejects a peer's certificate chain during a handshake.
//!
//! Two variants exist. `Permissive` accepts unconditionally; it is
//! INSECURE (it defeats certificate pinning and CA validation) and is
//! meant only to let self-signed certificates through in local testing.
//! `Anchored` accepts a chain only where it carries a pinned root
//! certificate, byte for byte.

use vstd::prelude::*;
use std::sync::Arc;

verus! {

/// Why a peer chain was rejected.
#[derive(Clone, Copy, PartialEq, Eq, Structural, Debug)]
pub enum RejectReason {
    ExpiredCertificate,
    NameMismatch,
    UnknownIssuer,
    SignatureInvalid,
}

/// The outcome of one verification decision.
#[derive(Clone, Copy, PartialEq, Eq, Structural, Debug)]
pub enum VerifyOutcome {
    Accepted,
    Rejected(RejectReason),
}

/// The pluggable policy. `Anchored` carries the DER encoding of the
/// pinned root certificate.
pub enum VerifyPolicy {
    Permissive,
    Anchored { pinned_root: Vec<u8> },
}

/// An anchored policy accepts a chain exactly when the chain is
/// non-empty and either terminates at the pinned root or its
/// end-entity certificate is the pinned certificate itself.
pub open spec fn anchored_accepts(chain: Seq<Seq<u8>>, root: Seq<u8>) -> bool {
    chain.len() > 0 && (chain.last() == root || chain.first() == root)
}

/// What `verify` returns for a given policy and peer chain. The other
/// handshake inputs (claimed name, SCTs, OCSP response, time) do not
/// influence either implemented variant.
pub open spec fn spec_verify(policy: VerifyPolicy, chain: Seq<Seq<u8>>) -> VerifyOutcome {
    match policy {
        VerifyPolicy::Permissive => VerifyOutcome::Accepted,
        VerifyPolicy::Anchored { pinned_root } => {
            if anchored_accepts(chain, pinned_root@) {
                VerifyOutcome::Accepted
            } else {
                VerifyOutcome::Rejected(RejectReason::UnknownIssuer)
            }
        },
    }
}

fn bytes_eq(a: &Vec<u8>, b: &Vec<u8>) -> (r: bool)
    ensures
        r <==> a@ == b@,
{
    if a.len() != b.len() {
        assert(a@.len() != b@.len());
        return false;
    }
    let n = a.len();
    let mut i: usize = 0;
    while i < n
        invariant
            n == a@.len(),
            n == b@.len(),
            i <= n,
            forall|j: int| 0 <= j < i ==> a@[j] == b@[j],
        decreases n - i,
    {
        if a[i] != b[i] {
            return false;
        }
        i = i + 1;
    }
    proof {
        assert(a@ =~= b@);
    }
    true
}

/// One verification decision per handshake attempt: a pure function of
/// the policy and its inputs, with no retry. A rejection aborts that
/// handshake attempt only, never the endpoint (see `lifecycle`).
///
/// `claimed_name`, `scts`, `ocsp_response` and `now` are the remaining
/// handshake inputs of the decision interface; neither implemented
/// variant reads them.
pub fn verify(
    policy: &VerifyPolicy,
    peer_chain: &Vec<Vec<u8>>,
    claimed_name: &Option<String>,
    scts: &Vec<Vec<u8>>,
    ocsp_response: &Vec<u8>,
    now: u64,
) -> (r: VerifyOutcome)
    ensures
        r == spec_verify(*policy, peer_chain@.map_values(|c: Vec<u8>| c@)),
        policy is Permissive ==> r == VerifyOutcome::Accepted,
{
    match policy {
        VerifyPolicy::Permissive => VerifyOutcome::Accepted,
        VerifyPolicy::Anchored { pinned_root } => {
            let ghost chain = peer_chain@.map_values(|c: Vec<u8>| c@);
            if peer_chain.len() == 0 {
                assert(!anchored_accepts(chain, pinned_root@));
                VerifyOutcome::Rejected(RejectReason::UnknownIssuer)
            } else {
                let last_match = bytes_eq(&peer_chain[peer_chain.len() - 1], pinned_root);
                let first_match = bytes_eq(&peer_chain[0], pinned_root);
                proof {
                    assert(chain.last() == peer_chain@[peer_chain@.len() - 1]@);
                    assert(chain.first() == peer_chain@[0]@);
                }
                if last_match || first_match {
                    VerifyOutcome::Accepted
                } else {
                    VerifyOutcome::Rejected(RejectReason::UnknownIssuer)
                }
            }
        },
    }
}

/// A permissive policy has no rejecting branch: whatever the chain —
/// even one whose name or issuer is deliberately wrong — the outcome
/// is `Accepted`. Stated to document the insecurity, not to endorse it.
pub proof fn lemma_permissive_always_accepts(chain: Seq<Seq<u8>>)
    ensures
        spec_verify(VerifyPolicy::Permissive, chain) == VerifyOutcome::Accepted,
{
}

/// An anchored policy whose pinned root appears nowhere in the peer
/// chain rejects the handshake with `UnknownIssuer`.
pub proof fn lemma_anchored_rejects_unknown_issuer(chain: Seq<Seq<u8>>, root: Vec<u8>)
    requires
        !anchored_accepts(chain, root@),
    ensures
        spec_verify(VerifyPolicy::Anchored { pinned_root: root }, chain)
            == VerifyOutcome::Rejected(RejectReason::UnknownIssuer),
{
}

/// Verifier that skips all certificate checks: the `Permissive` policy
/// in the shape the transport's crypto layer consumes. INSECURE.
pub struct SkipServerVerification;

impl SkipServerVerification {
    /// A fresh skip-everything verifier, shared behind an `Arc` so the
    /// crypto configuration and its sessions can hold it together.
    pub fn new() -> (r: Arc<Self>) {
        Arc::new(SkipServerVerification)
    }

    /// The decision this verifier makes for every presented chain:
    /// `Accepted`, unconditionally.
    pub fn decide(&self, peer_chain: &Vec<Vec<u8>>) -> (r: VerifyOutcome)
        ensures
            r == VerifyOutcome::Accepted,
    {
        VerifyOutcome::Accepted
    }
}

} // verus!
