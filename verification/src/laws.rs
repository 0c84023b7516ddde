//! Laws of the authorization service, proved over the spec-level transitions
//! of [`crate::ledger`].  Each executable operation ensures that its state
//! and result equal the corresponding transition, so these laws carry over
//! to every run of the service.

use vstd::prelude::*;
use crate::state::AtopyPassError;
use crate::ledger::{LedgerModel, commit_outcome, grant_outcome, revoke_outcome, consent_valid,
    consent_at, consent_index, consent_key_matches, has_consent, record_at, record_index,
    record_key_matches, has_record};

verus! {

/// Committing the same key twice fails: if a commit of `record_hash` under
/// `owner` at time `t1` succeeds, a second commit of the same key, at any
/// time `t2`, fails with `DuplicateKey`, leaves the state unchanged, and the
/// stored commitment still carries the first timestamp `t1`.
pub proof fn lemma_duplicate_commit_rejected(
    m: LedgerModel,
    owner: Seq<u8>,
    record_hash: Seq<u8>,
    t1: int,
    t2: int,
)
    requires
        commit_outcome(m, owner, owner, record_hash, t1).1 is Ok,
    ensures
        ({
            let m1 = commit_outcome(m, owner, owner, record_hash, t1).0;
            let m2 = commit_outcome(m1, owner, owner, record_hash, t2).0;
            let r2 = commit_outcome(m1, owner, owner, record_hash, t2).1;
            &&& r2 == Err::<(), AtopyPassError>(AtopyPassError::DuplicateKey)
            &&& m2 == m1
            &&& record_at(m2.records, owner, record_hash).timestamp == t1
        }),
{
    let m1 = commit_outcome(m, owner, owner, record_hash, t1).0;
    let n = m.records.len() as int;
    assert(record_key_matches(m1.records[n], owner, record_hash));
    assert(has_record(m1.records, owner, record_hash));
    let j = record_index(m1.records, owner, record_hash);
    assert(0 <= j < m1.records.len() && record_key_matches(m1.records[j], owner, record_hash));
    if j != n {
        assert(record_key_matches(m.records[j], owner, record_hash));
        assert(false);
    }
    assert(record_at(m1.records, owner, record_hash).timestamp == t1);
}

/// Revoking twice fails: if a grant to `doctor` for `(owner, record_hash)`
/// succeeds, a first revocation by the owner succeeds, and a second
/// revocation of the same grant fails with `AlreadyRevoked` and leaves the
/// state unchanged.
pub proof fn lemma_second_revoke_rejected(
    m: LedgerModel,
    owner: Seq<u8>,
    record_hash: Seq<u8>,
    doctor: Seq<u8>,
    expiry_ts: int,
)
    requires
        grant_outcome(m, owner, owner, record_hash, doctor, expiry_ts).1 is Ok,
    ensures
        ({
            let m1 = grant_outcome(m, owner, owner, record_hash, doctor, expiry_ts).0;
            let m2 = revoke_outcome(m1, owner, owner, record_hash, doctor).0;
            let r2 = revoke_outcome(m1, owner, owner, record_hash, doctor).1;
            let m3 = revoke_outcome(m2, owner, owner, record_hash, doctor).0;
            let r3 = revoke_outcome(m2, owner, owner, record_hash, doctor).1;
            &&& r2 is Ok
            &&& r3 == Err::<(), AtopyPassError>(AtopyPassError::AlreadyRevoked)
            &&& m3 == m2
        }),
{
    let m1 = grant_outcome(m, owner, owner, record_hash, doctor, expiry_ts).0;
    let n = m.consents.len() as int;
    assert(consent_key_matches(m1.consents[n], owner, record_hash, doctor));
    assert(has_consent(m1.consents, owner, record_hash, doctor));
    let j = consent_index(m1.consents, owner, record_hash, doctor);
    assert(0 <= j < m1.consents.len() && consent_key_matches(m1.consents[j], owner, record_hash, doctor));
    if j != n {
        assert(consent_key_matches(m.consents[j], owner, record_hash, doctor));
        assert(false);
    }
    assert(!consent_at(m1.consents, owner, record_hash, doctor).revoked);
    let m2 = revoke_outcome(m1, owner, owner, record_hash, doctor).0;
    assert(consent_key_matches(m2.consents[n], owner, record_hash, doctor));
    assert(has_consent(m2.consents, owner, record_hash, doctor));
    let k = consent_index(m2.consents, owner, record_hash, doctor);
    assert(0 <= k < m2.consents.len() && consent_key_matches(m2.consents[k], owner, record_hash, doctor));
    if k != n {
        assert(m2.consents[k] == m1.consents[k]);
        assert(consent_key_matches(m.consents[k], owner, record_hash, doctor));
        assert(false);
    }
    assert(consent_at(m2.consents, owner, record_hash, doctor).revoked);
}

/// Expiry invalidates without revocation: whatever the grant's `revoked`
/// flag holds, the grant `(owner, record_hash, doctor)` is invalid at every
/// time at or past its expiry.
pub proof fn lemma_expiry_invalidates(
    m: LedgerModel,
    owner: Seq<u8>,
    record_hash: Seq<u8>,
    doctor: Seq<u8>,
    at_time: int,
)
    requires
        has_consent(m.consents, owner, record_hash, doctor),
        at_time >= consent_at(m.consents, owner, record_hash, doctor).expiry_ts,
    ensures
        !consent_valid(m.consents, owner, record_hash, doctor, at_time),
{
}

/// A revoked grant is invalid at every time, expired or not.
pub proof fn lemma_revoked_is_invalid(
    m: LedgerModel,
    owner: Seq<u8>,
    record_hash: Seq<u8>,
    doctor: Seq<u8>,
    at_time: int,
)
    requires
        has_consent(m.consents, owner, record_hash, doctor),
        consent_at(m.consents, owner, record_hash, doctor).revoked,
    ensures
        !consent_valid(m.consents, owner, record_hash, doctor, at_time),
{
}

/// Only the owner revokes: a revocation of a stored grant by any caller
/// other than its owner fails with `Unauthorized` and leaves the state —
/// in particular the grant's `revoked` flag — unchanged, so an unrevoked
/// grant stays unrevoked.  Ownership is checked before the `revoked` flag;
/// only a missing grant fails earlier, with `NotFound`.
pub proof fn lemma_unauthorized_revoke_rejected(
    m: LedgerModel,
    caller: Seq<u8>,
    owner: Seq<u8>,
    record_hash: Seq<u8>,
    doctor: Seq<u8>,
)
    requires
        has_consent(m.consents, owner, record_hash, doctor),
        caller != owner,
    ensures
        ({
            let m1 = revoke_outcome(m, caller, owner, record_hash, doctor).0;
            let r1 = revoke_outcome(m, caller, owner, record_hash, doctor).1;
            &&& r1 == Err::<(), AtopyPassError>(AtopyPassError::Unauthorized)
            &&& m1 == m
            &&& consent_at(m1.consents, owner, record_hash, doctor) == consent_at(
                m.consents,
                owner,
                record_hash,
                doctor,
            )
        }),
{
}

/// Granting the same triple twice fails: if a grant to `doctor` for
/// `(owner, record_hash)` succeeds, a second grant of the same triple, with
/// any expiry, fails with `DuplicateKey` and leaves the state unchanged —
/// there is no overwrite and, the key being kept by revocation, no re-grant
/// path either.
pub proof fn lemma_duplicate_grant_rejected(
    m: LedgerModel,
    owner: Seq<u8>,
    record_hash: Seq<u8>,
    doctor: Seq<u8>,
    e1: int,
    e2: int,
)
    requires
        grant_outcome(m, owner, owner, record_hash, doctor, e1).1 is Ok,
    ensures
        ({
            let m1 = grant_outcome(m, owner, owner, record_hash, doctor, e1).0;
            let m2 = grant_outcome(m1, owner, owner, record_hash, doctor, e2).0;
            let r2 = grant_outcome(m1, owner, owner, record_hash, doctor, e2).1;
            &&& r2 == Err::<(), AtopyPassError>(AtopyPassError::DuplicateKey)
            &&& m2 == m1
        }),
{
    let m1 = grant_outcome(m, owner, owner, record_hash, doctor, e1).0;
    let n = m.consents.len() as int;
    assert(consent_key_matches(m1.consents[n], owner, record_hash, doctor));
    assert(has_consent(m1.consents, owner, record_hash, doctor));
}

/// Commits append: a commit never changes nor deletes a stored commitment
/// or grant; at most it appends one commitment.
pub proof fn lemma_commit_append_only(
    m: LedgerModel,
    caller: Seq<u8>,
    owner: Seq<u8>,
    record_hash: Seq<u8>,
    now: int,
)
    ensures
        ({
            let m1 = commit_outcome(m, caller, owner, record_hash, now).0;
            &&& m1.consents == m.consents
            &&& m.records.len() <= m1.records.len()
            &&& forall|i: int| 0 <= i < m.records.len() ==> #[trigger] m1.records[i] == m.records[i]
        }),
{
}

/// Grants append: a grant never changes nor deletes a stored commitment or
/// grant; at most it appends one grant.
pub proof fn lemma_grant_append_only(
    m: LedgerModel,
    caller: Seq<u8>,
    owner: Seq<u8>,
    record_hash: Seq<u8>,
    doctor: Seq<u8>,
    expiry_ts: int,
)
    ensures
        ({
            let m1 = grant_outcome(m, caller, owner, record_hash, doctor, expiry_ts).0;
            &&& m1.records == m.records
            &&& m.consents.len() <= m1.consents.len()
            &&& forall|i: int| 0 <= i < m.consents.len() ==> #[trigger] m1.consents[i] == m.consents[i]
        }),
{
}

/// Revocation is monotone: a revocation changes no commitment, creates and
/// deletes no grant, and of at most one grant changes only the `revoked`
/// flag — never from `true` back to `false`.
pub proof fn lemma_revoke_monotone(
    m: LedgerModel,
    caller: Seq<u8>,
    owner: Seq<u8>,
    record_hash: Seq<u8>,
    doctor: Seq<u8>,
)
    ensures
        ({
            let m1 = revoke_outcome(m, caller, owner, record_hash, doctor).0;
            &&& m1.records == m.records
            &&& m1.consents.len() == m.consents.len()
            &&& forall|i: int|
                0 <= i < m.consents.len() ==> (#[trigger] m1.consents[i]).owner
                    == m.consents[i].owner && m1.consents[i].record_hash
                    == m.consents[i].record_hash && m1.consents[i].doctor
                    == m.consents[i].doctor && m1.consents[i].expiry_ts
                    == m.consents[i].expiry_ts && (m.consents[i].revoked
                    ==> m1.consents[i].revoked)
        }),
{
}

} // verus!
