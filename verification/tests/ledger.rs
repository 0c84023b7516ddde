use atopypass::ledger::Ledger;
use atopypass::state::{AtopyPassError, Pubkey};

fn key(tag: u8) -> Pubkey {
    Pubkey { bytes: [tag; 32] }
}

fn hash(tag: u8) -> [u8; 32] {
    [tag; 32]
}

#[test]
fn commit_record_stores_owner_hash_and_timestamp() {
    let alice = key(1);
    let h = hash(9);
    let mut ledger = Ledger::new();
    assert_eq!(ledger.commit_record(&alice, &alice, &h, 100), Ok(()));
    let record = ledger.get_record(&alice, &h).unwrap();
    assert_eq!(record.owner.bytes, alice.bytes);
    assert_eq!(record.record_hash, h);
    assert_eq!(record.timestamp, 100);
}

#[test]
fn duplicate_commit_rejected_and_timestamp_unchanged() {
    let alice = key(1);
    let h = hash(9);
    let mut ledger = Ledger::new();
    assert_eq!(ledger.commit_record(&alice, &alice, &h, 100), Ok(()));
    assert_eq!(
        ledger.commit_record(&alice, &alice, &h, 200),
        Err(AtopyPassError::DuplicateKey)
    );
    let record = ledger.get_record(&alice, &h).unwrap();
    assert_eq!(record.timestamp, 100);
}

#[test]
fn commit_by_other_identity_unauthorized() {
    let alice = key(1);
    let mallory = key(3);
    let h = hash(9);
    let mut ledger = Ledger::new();
    assert_eq!(
        ledger.commit_record(&mallory, &alice, &h, 100),
        Err(AtopyPassError::Unauthorized)
    );
    assert!(ledger.get_record(&alice, &h).is_none());
}

#[test]
fn distinct_keys_commit_independently() {
    let alice = key(1);
    let carol = key(4);
    let h1 = hash(9);
    let h2 = hash(10);
    let mut ledger = Ledger::new();
    assert_eq!(ledger.commit_record(&alice, &alice, &h1, 100), Ok(()));
    assert_eq!(ledger.commit_record(&alice, &alice, &h2, 110), Ok(()));
    assert_eq!(ledger.commit_record(&carol, &carol, &h1, 120), Ok(()));
    assert_eq!(ledger.get_record(&alice, &h1).unwrap().timestamp, 100);
    assert_eq!(ledger.get_record(&alice, &h2).unwrap().timestamp, 110);
    assert_eq!(ledger.get_record(&carol, &h1).unwrap().timestamp, 120);
}

#[test]
fn grant_creates_unrevoked_grant() {
    let alice = key(1);
    let bob = key(2);
    let h = hash(9);
    let mut ledger = Ledger::new();
    assert_eq!(ledger.grant_consent(&alice, &alice, &h, &bob, 200), Ok(()));
    let consent = ledger.get_consent(&alice, &h, &bob).unwrap();
    assert_eq!(consent.owner.bytes, alice.bytes);
    assert_eq!(consent.record_hash, h);
    assert_eq!(consent.doctor.bytes, bob.bytes);
    assert_eq!(consent.expiry_ts, 200);
    assert!(!consent.revoked);
}

#[test]
fn duplicate_grant_rejected() {
    let alice = key(1);
    let bob = key(2);
    let h = hash(9);
    let mut ledger = Ledger::new();
    assert_eq!(ledger.grant_consent(&alice, &alice, &h, &bob, 200), Ok(()));
    assert_eq!(
        ledger.grant_consent(&alice, &alice, &h, &bob, 500),
        Err(AtopyPassError::DuplicateKey)
    );
    assert_eq!(ledger.get_consent(&alice, &h, &bob).unwrap().expiry_ts, 200);
}

#[test]
fn grant_by_other_identity_unauthorized() {
    let alice = key(1);
    let bob = key(2);
    let mallory = key(3);
    let h = hash(9);
    let mut ledger = Ledger::new();
    assert_eq!(
        ledger.grant_consent(&mallory, &alice, &h, &bob, 200),
        Err(AtopyPassError::Unauthorized)
    );
    assert!(ledger.get_consent(&alice, &h, &bob).is_none());
}

#[test]
fn grant_needs_no_prior_commitment() {
    let alice = key(1);
    let bob = key(2);
    let h = hash(9);
    let mut ledger = Ledger::new();
    assert_eq!(ledger.grant_consent(&alice, &alice, &h, &bob, 200), Ok(()));
    assert!(ledger.get_record(&alice, &h).is_none());
    assert!(ledger.is_consent_valid(&alice, &h, &bob, 150));
}

#[test]
fn grant_with_past_expiry_created_but_never_valid() {
    let alice = key(1);
    let bob = key(2);
    let h = hash(9);
    let mut ledger = Ledger::new();
    assert_eq!(ledger.grant_consent(&alice, &alice, &h, &bob, 10), Ok(()));
    assert!(ledger.is_consent_valid(&alice, &h, &bob, 9));
    assert!(!ledger.is_consent_valid(&alice, &h, &bob, 10));
    assert!(!ledger.is_consent_valid(&alice, &h, &bob, 1000));
}

#[test]
fn consent_validity_window() {
    let alice = key(1);
    let bob = key(2);
    let h = hash(9);
    let mut ledger = Ledger::new();
    assert!(!ledger.is_consent_valid(&alice, &h, &bob, 0));
    assert_eq!(ledger.grant_consent(&alice, &alice, &h, &bob, 200), Ok(()));
    assert!(ledger.is_consent_valid(&alice, &h, &bob, 0));
    assert!(ledger.is_consent_valid(&alice, &h, &bob, 199));
    assert!(!ledger.is_consent_valid(&alice, &h, &bob, 200));
    assert!(!ledger.is_consent_valid(&alice, &h, &bob, 201));
    assert!(!ledger.is_consent_valid(&alice, &hash(10), &bob, 150));
    assert!(!ledger.is_consent_valid(&alice, &h, &key(3), 150));
    assert!(!ledger.is_consent_valid(&key(3), &h, &bob, 150));
}

#[test]
fn revoke_missing_grant_not_found() {
    let alice = key(1);
    let bob = key(2);
    let h = hash(9);
    let mut ledger = Ledger::new();
    assert_eq!(
        ledger.revoke_consent(&alice, &alice, &h, &bob),
        Err(AtopyPassError::NotFound)
    );
}

#[test]
fn revoke_by_other_identity_unauthorized_and_grant_untouched() {
    let alice = key(1);
    let bob = key(2);
    let mallory = key(3);
    let h = hash(9);
    let mut ledger = Ledger::new();
    assert_eq!(ledger.grant_consent(&alice, &alice, &h, &bob, 200), Ok(()));
    assert_eq!(
        ledger.revoke_consent(&mallory, &alice, &h, &bob),
        Err(AtopyPassError::Unauthorized)
    );
    assert!(!ledger.get_consent(&alice, &h, &bob).unwrap().revoked);
    assert!(ledger.is_consent_valid(&alice, &h, &bob, 150));
}

#[test]
fn second_revoke_already_revoked() {
    let alice = key(1);
    let bob = key(2);
    let h = hash(9);
    let mut ledger = Ledger::new();
    assert_eq!(ledger.grant_consent(&alice, &alice, &h, &bob, 200), Ok(()));
    assert_eq!(ledger.revoke_consent(&alice, &alice, &h, &bob), Ok(()));
    assert_eq!(
        ledger.revoke_consent(&alice, &alice, &h, &bob),
        Err(AtopyPassError::AlreadyRevoked)
    );
    assert!(ledger.get_consent(&alice, &h, &bob).unwrap().revoked);
}

#[test]
fn ownership_checked_before_revoked_flag() {
    let alice = key(1);
    let bob = key(2);
    let mallory = key(3);
    let h = hash(9);
    let mut ledger = Ledger::new();
    assert_eq!(ledger.grant_consent(&alice, &alice, &h, &bob, 200), Ok(()));
    assert_eq!(ledger.revoke_consent(&alice, &alice, &h, &bob), Ok(()));
    assert_eq!(
        ledger.revoke_consent(&mallory, &alice, &h, &bob),
        Err(AtopyPassError::Unauthorized)
    );
    assert!(ledger.get_consent(&alice, &h, &bob).unwrap().revoked);
}

#[test]
fn expired_grant_still_revocable() {
    let alice = key(1);
    let bob = key(2);
    let h = hash(9);
    let mut ledger = Ledger::new();
    assert_eq!(ledger.grant_consent(&alice, &alice, &h, &bob, 10), Ok(()));
    assert!(!ledger.is_consent_valid(&alice, &h, &bob, 50));
    assert_eq!(ledger.revoke_consent(&alice, &alice, &h, &bob), Ok(()));
    assert!(ledger.get_consent(&alice, &h, &bob).unwrap().revoked);
}

#[test]
fn revoke_leaves_other_grants_untouched() {
    let alice = key(1);
    let bob = key(2);
    let dave = key(5);
    let h = hash(9);
    let mut ledger = Ledger::new();
    assert_eq!(ledger.grant_consent(&alice, &alice, &h, &bob, 200), Ok(()));
    assert_eq!(ledger.grant_consent(&alice, &alice, &h, &dave, 300), Ok(()));
    assert_eq!(ledger.revoke_consent(&alice, &alice, &h, &bob), Ok(()));
    assert!(!ledger.is_consent_valid(&alice, &h, &bob, 150));
    assert!(ledger.is_consent_valid(&alice, &h, &dave, 150));
    assert!(!ledger.get_consent(&alice, &h, &dave).unwrap().revoked);
}

#[test]
fn owner_commits_grants_queries_and_revokes() {
    let alice = key(0xAA);
    let bob = key(2);
    let h = hash(0xAA);
    let mut ledger = Ledger::new();
    assert_eq!(ledger.commit_record(&alice, &alice, &h, 100), Ok(()));
    assert_eq!(ledger.get_record(&alice, &h).unwrap().timestamp, 100);
    assert_eq!(ledger.grant_consent(&alice, &alice, &h, &bob, 200), Ok(()));
    assert!(!ledger.get_consent(&alice, &h, &bob).unwrap().revoked);
    assert!(ledger.is_consent_valid(&alice, &h, &bob, 150));
    assert_eq!(ledger.revoke_consent(&alice, &alice, &h, &bob), Ok(()));
    assert!(!ledger.is_consent_valid(&alice, &h, &bob, 150));
    assert_eq!(
        ledger.revoke_consent(&alice, &alice, &h, &bob),
        Err(AtopyPassError::AlreadyRevoked)
    );
}

#[test]
fn pubkey_and_bytes_equality() {
    let mut a = [0u8; 32];
    a[31] = 1;
    let mut b = [0u8; 32];
    b[31] = 2;
    assert!(atopypass::state::bytes32_eq(&a, &a));
    assert!(!atopypass::state::bytes32_eq(&a, &b));
    assert!(atopypass::state::pubkey_eq(&Pubkey { bytes: a }, &Pubkey { bytes: a }));
    assert!(!atopypass::state::pubkey_eq(&Pubkey { bytes: a }, &Pubkey { bytes: b }));
}
