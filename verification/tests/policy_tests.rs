use quic_bootstrap::policy::{verify, RejectReason, SkipServerVerification, VerifyOutcome,
    VerifyPolicy};

#[test]
fn permissive_accepts_mismatched_input() {
    // Deliberately wrong everything: an unrelated chain, a name that
    // matches nothing, stale time. The permissive policy still accepts;
    // this documents its insecurity, it does not endorse it.
    let bogus_chain: Vec<Vec<u8>> = vec![vec![0xde, 0xad, 0xbe, 0xef]];
    let outcome = verify(
        &VerifyPolicy::Permissive,
        &bogus_chain,
        &Some("name.that.matches.nothing.example".to_string()),
        &vec![],
        &vec![],
        0,
    );
    assert_eq!(outcome, VerifyOutcome::Accepted);
}

#[test]
fn permissive_accepts_empty_chain() {
    let outcome = verify(&VerifyPolicy::Permissive, &vec![], &None, &vec![], &vec![], 0);
    assert_eq!(outcome, VerifyOutcome::Accepted);
}

#[test]
fn anchored_rejects_unknown_issuer() {
    let pinned = VerifyPolicy::Anchored { pinned_root: vec![1, 2, 3] };
    let presented: Vec<Vec<u8>> = vec![vec![9, 9, 9], vec![8, 8, 8]];
    let outcome = verify(&pinned, &presented, &None, &vec![], &vec![], 0);
    assert_eq!(outcome, VerifyOutcome::Rejected(RejectReason::UnknownIssuer));
}

#[test]
fn anchored_rejects_empty_chain() {
    let pinned = VerifyPolicy::Anchored { pinned_root: vec![1, 2, 3] };
    let outcome = verify(&pinned, &vec![], &None, &vec![], &vec![], 0);
    assert_eq!(outcome, VerifyOutcome::Rejected(RejectReason::UnknownIssuer));
}

#[test]
fn anchored_accepts_pinned_end_entity() {
    let pinned = VerifyPolicy::Anchored { pinned_root: vec![1, 2, 3] };
    let presented: Vec<Vec<u8>> = vec![vec![1, 2, 3]];
    let outcome = verify(&pinned, &presented, &None, &vec![], &vec![], 0);
    assert_eq!(outcome, VerifyOutcome::Accepted);
}

#[test]
fn anchored_accepts_chain_ending_at_root() {
    let pinned = VerifyPolicy::Anchored { pinned_root: vec![7, 7] };
    let presented: Vec<Vec<u8>> = vec![vec![5, 5], vec![6, 6], vec![7, 7]];
    let outcome = verify(&pinned, &presented, &None, &vec![], &vec![], 0);
    assert_eq!(outcome, VerifyOutcome::Accepted);
}

#[test]
fn skip_server_verification_always_accepts() {
    let v = SkipServerVerification::new();
    let bogus_chain: Vec<Vec<u8>> = vec![vec![0; 64]];
    assert_eq!(v.decide(&bogus_chain), VerifyOutcome::Accepted);
    assert_eq!(v.decide(&vec![]), VerifyOutcome::Accepted);
}
