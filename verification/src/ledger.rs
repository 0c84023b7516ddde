//! The authorization service: two ledgers (commitments and grants) behind a
//! single component that alone may write to them.
//!
//! The behaviour of every operation is stated by a spec-level transition
//! function over [`LedgerModel`]; each executable operation ensures that the
//! pair (new state, result) equals the transition applied to the old state.

use vstd::prelude::*;
use crate::state::{AtopyPassError, ConsentAccount, ConsentModel, Pubkey, RecordAccount,
    RecordModel, bytes32_eq, pubkey_eq};

verus! {

/// The mathematical model of the whole service state: the sequence of stored
/// commitments and the sequence of stored grants, in creation order.
#[verifier::ext_equal]
pub ghost struct LedgerModel {
    pub records: Seq<RecordModel>,
    pub consents: Seq<ConsentModel>,
}

/// Does `r` carry the commitment key `(owner, record_hash)`?
pub open spec fn record_key_matches(r: RecordModel, owner: Seq<u8>, record_hash: Seq<u8>) -> bool {
    r.owner == owner && r.record_hash == record_hash
}

/// Is some commitment with key `(owner, record_hash)` stored?
pub open spec fn has_record(rs: Seq<RecordModel>, owner: Seq<u8>, record_hash: Seq<u8>) -> bool {
    exists|i: int| 0 <= i < rs.len() && record_key_matches(rs[i], owner, record_hash)
}

/// The position of a commitment with key `(owner, record_hash)`, where one exists.
pub open spec fn record_index(rs: Seq<RecordModel>, owner: Seq<u8>, record_hash: Seq<u8>) -> int {
    choose|i: int| 0 <= i < rs.len() && record_key_matches(rs[i], owner, record_hash)
}

/// The commitment stored under `(owner, record_hash)`, where one exists.
pub open spec fn record_at(rs: Seq<RecordModel>, owner: Seq<u8>, record_hash: Seq<u8>) -> RecordModel {
    rs[record_index(rs, owner, record_hash)]
}

/// Does `c` carry the grant key `(owner, record_hash, doctor)`?
pub open spec fn consent_key_matches(
    c: ConsentModel,
    owner: Seq<u8>,
    record_hash: Seq<u8>,
    doctor: Seq<u8>,
) -> bool {
    c.owner == owner && c.record_hash == record_hash && c.doctor == doctor
}

/// Is some grant with key `(owner, record_hash, doctor)` stored?
pub open spec fn has_consent(
    cs: Seq<ConsentModel>,
    owner: Seq<u8>,
    record_hash: Seq<u8>,
    doctor: Seq<u8>,
) -> bool {
    exists|i: int| 0 <= i < cs.len() && consent_key_matches(cs[i], owner, record_hash, doctor)
}

/// The position of a grant with key `(owner, record_hash, doctor)`, where one exists.
pub open spec fn consent_index(
    cs: Seq<ConsentModel>,
    owner: Seq<u8>,
    record_hash: Seq<u8>,
    doctor: Seq<u8>,
) -> int {
    choose|i: int| 0 <= i < cs.len() && consent_key_matches(cs[i], owner, record_hash, doctor)
}

/// The grant stored under `(owner, record_hash, doctor)`, where one exists.
pub open spec fn consent_at(
    cs: Seq<ConsentModel>,
    owner: Seq<u8>,
    record_hash: Seq<u8>,
    doctor: Seq<u8>,
) -> ConsentModel {
    cs[consent_index(cs, owner, record_hash, doctor)]
}

/// Commitment keys are unique: no two stored commitments share
/// `(owner, record_hash)`.
pub open spec fn records_unique(rs: Seq<RecordModel>) -> bool {
    forall|i: int, j: int|
        0 <= i < rs.len() && 0 <= j < rs.len() && i != j ==> !(#[trigger] rs[i].owner
            == #[trigger] rs[j].owner && rs[i].record_hash == rs[j].record_hash)
}

/// Grant keys are unique: no two stored grants share
/// `(owner, record_hash, doctor)`.
pub open spec fn consents_unique(cs: Seq<ConsentModel>) -> bool {
    forall|i: int, j: int|
        0 <= i < cs.len() && 0 <= j < cs.len() && i != j ==> !(#[trigger] cs[i].owner
            == #[trigger] cs[j].owner && cs[i].record_hash == cs[j].record_hash && cs[i].doctor
            == cs[j].doctor)
}

/// Well-formedness of the service state: both key spaces are injective.
pub open spec fn ledger_wf(m: LedgerModel) -> bool {
    records_unique(m.records) && consents_unique(m.consents)
}

/// The transition of a commit: what state and result a commit of
/// `record_hash` under `owner`, called by `caller` at time `now`, yields.
///
/// Ownership is checked first, then key uniqueness; on success the new
/// commitment is appended with `timestamp == now` and the grants are
/// untouched.  On any error the state is unchanged.
pub open spec fn commit_outcome(
    m: LedgerModel,
    caller: Seq<u8>,
    owner: Seq<u8>,
    record_hash: Seq<u8>,
    now: int,
) -> (LedgerModel, Result<(), AtopyPassError>) {
    if caller != owner {
        (m, Err(AtopyPassError::Unauthorized))
    } else if has_record(m.records, owner, record_hash) {
        (m, Err(AtopyPassError::DuplicateKey))
    } else {
        let r = RecordModel { owner: owner, record_hash: record_hash, timestamp: now };
        (LedgerModel { records: m.records.push(r), consents: m.consents }, Ok(()))
    }
}

/// The transition of a grant: what state and result a grant of access to
/// `doctor` for `(owner, record_hash)` until `expiry_ts`, called by `caller`,
/// yields.
///
/// Ownership is checked first, then key uniqueness; on success the new grant
/// is appended with `revoked == false` and the commitments are untouched.  On
/// any error the state is unchanged.  No commitment under
/// `(owner, record_hash)` is required to exist, and `expiry_ts` may already
/// lie in the past: the grant is then created but never valid.
pub open spec fn grant_outcome(
    m: LedgerModel,
    caller: Seq<u8>,
    owner: Seq<u8>,
    record_hash: Seq<u8>,
    doctor: Seq<u8>,
    expiry_ts: int,
) -> (LedgerModel, Result<(), AtopyPassError>) {
    if caller != owner {
        (m, Err(AtopyPassError::Unauthorized))
    } else if has_consent(m.consents, owner, record_hash, doctor) {
        (m, Err(AtopyPassError::DuplicateKey))
    } else {
        let c = ConsentModel {
            owner: owner,
            record_hash: record_hash,
            doctor: doctor,
            expiry_ts: expiry_ts,
            revoked: false,
        };
        (LedgerModel { records: m.records, consents: m.consents.push(c) }, Ok(()))
    }
}

/// `c` with its `revoked` flag set.
pub open spec fn revoked_consent(c: ConsentModel) -> ConsentModel {
    ConsentModel {
        owner: c.owner,
        record_hash: c.record_hash,
        doctor: c.doctor,
        expiry_ts: c.expiry_ts,
        revoked: true,
    }
}

/// The transition of a revocation: what state and result a revocation of the
/// grant `(owner, record_hash, doctor)`, called by `caller`, yields.
///
/// Existence is checked first, then ownership, then the `revoked` flag; on
/// success only that grant's `revoked` flag flips to `true`.  On any error
/// the state is unchanged.  Expiry never blocks revocation.
pub open spec fn revoke_outcome(
    m: LedgerModel,
    caller: Seq<u8>,
    owner: Seq<u8>,
    record_hash: Seq<u8>,
    doctor: Seq<u8>,
) -> (LedgerModel, Result<(), AtopyPassError>) {
    if !has_consent(m.consents, owner, record_hash, doctor) {
        (m, Err(AtopyPassError::NotFound))
    } else {
        let i = consent_index(m.consents, owner, record_hash, doctor);
        let c = m.consents[i];
        if caller != owner {
            (m, Err(AtopyPassError::Unauthorized))
        } else if c.revoked {
            (m, Err(AtopyPassError::AlreadyRevoked))
        } else {
            (
                LedgerModel { records: m.records, consents: m.consents.update(i, revoked_consent(c)) },
                Ok(()),
            )
        }
    }
}

/// Is the grant `(owner, record_hash, doctor)` valid at `at_time`: stored,
/// not revoked, and not yet expired (`at_time < expiry_ts`)?
pub open spec fn consent_valid(
    cs: Seq<ConsentModel>,
    owner: Seq<u8>,
    record_hash: Seq<u8>,
    doctor: Seq<u8>,
    at_time: int,
) -> bool {
    &&& has_consent(cs, owner, record_hash, doctor)
    &&& !consent_at(cs, owner, record_hash, doctor).revoked
    &&& at_time < consent_at(cs, owner, record_hash, doctor).expiry_ts
}

/// A stored commitment that matches a key is the one `record_at` denotes:
/// with unique keys there is no other.
pub proof fn lemma_record_found(rs: Seq<RecordModel>, owner: Seq<u8>, record_hash: Seq<u8>, i: int)
    requires
        records_unique(rs),
        0 <= i < rs.len(),
        record_key_matches(rs[i], owner, record_hash),
    ensures
        has_record(rs, owner, record_hash),
        record_index(rs, owner, record_hash) == i,
        record_at(rs, owner, record_hash) == rs[i],
{
    assert(has_record(rs, owner, record_hash));
    let j = record_index(rs, owner, record_hash);
    assert(0 <= j < rs.len() && record_key_matches(rs[j], owner, record_hash));
    if i != j {
        assert(!(rs[i].owner == rs[j].owner && rs[i].record_hash == rs[j].record_hash));
        assert(false);
    }
}

/// A stored grant that matches a key is the one `consent_at` denotes: with
/// unique keys there is no other.
pub proof fn lemma_consent_found(
    cs: Seq<ConsentModel>,
    owner: Seq<u8>,
    record_hash: Seq<u8>,
    doctor: Seq<u8>,
    i: int,
)
    requires
        consents_unique(cs),
        0 <= i < cs.len(),
        consent_key_matches(cs[i], owner, record_hash, doctor),
    ensures
        has_consent(cs, owner, record_hash, doctor),
        consent_index(cs, owner, record_hash, doctor) == i,
        consent_at(cs, owner, record_hash, doctor) == cs[i],
{
    assert(has_consent(cs, owner, record_hash, doctor));
    let j = consent_index(cs, owner, record_hash, doctor);
    assert(0 <= j < cs.len() && consent_key_matches(cs[j], owner, record_hash, doctor));
    if i != j {
        assert(!(cs[i].owner == cs[j].owner && cs[i].record_hash == cs[j].record_hash
            && cs[i].doctor == cs[j].doctor));
        assert(false);
    }
}

/// Every transition preserves well-formedness of the service state.
pub proof fn lemma_commit_preserves_wf(
    m: LedgerModel,
    caller: Seq<u8>,
    owner: Seq<u8>,
    record_hash: Seq<u8>,
    now: int,
)
    requires
        ledger_wf(m),
    ensures
        ledger_wf(commit_outcome(m, caller, owner, record_hash, now).0),
{
    let m1 = commit_outcome(m, caller, owner, record_hash, now).0;
    if caller == owner && !has_record(m.records, owner, record_hash) {
        let n = m.records.len() as int;
        assert forall|i: int, j: int|
            0 <= i < m1.records.len() && 0 <= j < m1.records.len() && i != j implies !(
        #[trigger] m1.records[i].owner == #[trigger] m1.records[j].owner
            && m1.records[i].record_hash == m1.records[j].record_hash) by {
            if i < n && j < n {
                assert(m1.records[i] == m.records[i]);
                assert(m1.records[j] == m.records[j]);
            } else if i == n {
                assert(m1.records[j] == m.records[j]);
                if m1.records[i].owner == m1.records[j].owner && m1.records[i].record_hash
                    == m1.records[j].record_hash {
                    assert(record_key_matches(m.records[j], owner, record_hash));
                }
            } else {
                assert(m1.records[i] == m.records[i]);
                if m1.records[i].owner == m1.records[j].owner && m1.records[i].record_hash
                    == m1.records[j].record_hash {
                    assert(record_key_matches(m.records[i], owner, record_hash));
                }
            }
        }
    }
}

/// Every transition preserves well-formedness of the service state.
pub proof fn lemma_grant_preserves_wf(
    m: LedgerModel,
    caller: Seq<u8>,
    owner: Seq<u8>,
    record_hash: Seq<u8>,
    doctor: Seq<u8>,
    expiry_ts: int,
)
    requires
        ledger_wf(m),
    ensures
        ledger_wf(grant_outcome(m, caller, owner, record_hash, doctor, expiry_ts).0),
{
    let m1 = grant_outcome(m, caller, owner, record_hash, doctor, expiry_ts).0;
    if caller == owner && !has_consent(m.consents, owner, record_hash, doctor) {
        let n = m.consents.len() as int;
        assert forall|i: int, j: int|
            0 <= i < m1.consents.len() && 0 <= j < m1.consents.len() && i != j implies !(
        #[trigger] m1.consents[i].owner == #[trigger] m1.consents[j].owner
            && m1.consents[i].record_hash == m1.consents[j].record_hash && m1.consents[i].doctor
            == m1.consents[j].doctor) by {
            if i < n && j < n {
                assert(m1.consents[i] == m.consents[i]);
                assert(m1.consents[j] == m.consents[j]);
            } else if i == n {
                assert(m1.consents[j] == m.consents[j]);
                if m1.consents[i].owner == m1.consents[j].owner && m1.consents[i].record_hash
                    == m1.consents[j].record_hash && m1.consents[i].doctor
                    == m1.consents[j].doctor {
                    assert(consent_key_matches(m.consents[j], owner, record_hash, doctor));
                }
            } else {
                assert(m1.consents[i] == m.consents[i]);
                if m1.consents[i].owner == m1.consents[j].owner && m1.consents[i].record_hash
                    == m1.consents[j].record_hash && m1.consents[i].doctor
                    == m1.consents[j].doctor {
                    assert(consent_key_matches(m.consents[i], owner, record_hash, doctor));
                }
            }
        }
    }
}

/// Every transition preserves well-formedness of the service state.
pub proof fn lemma_revoke_preserves_wf(
    m: LedgerModel,
    caller: Seq<u8>,
    owner: Seq<u8>,
    record_hash: Seq<u8>,
    doctor: Seq<u8>,
)
    requires
        ledger_wf(m),
    ensures
        ledger_wf(revoke_outcome(m, caller, owner, record_hash, doctor).0),
{
    let m1 = revoke_outcome(m, caller, owner, record_hash, doctor).0;
    if has_consent(m.consents, owner, record_hash, doctor) {
        let k = consent_index(m.consents, owner, record_hash, doctor);
        let c = m.consents[k];
        if !c.revoked && caller == owner {
            assert forall|i: int, j: int|
                0 <= i < m1.consents.len() && 0 <= j < m1.consents.len() && i != j implies !(
            #[trigger] m1.consents[i].owner == #[trigger] m1.consents[j].owner
                && m1.consents[i].record_hash == m1.consents[j].record_hash
                && m1.consents[i].doctor == m1.consents[j].doctor) by {
                assert(m1.consents[i].owner == m.consents[i].owner && m1.consents[i].record_hash
                    == m.consents[i].record_hash && m1.consents[i].doctor
                    == m.consents[i].doctor);
                assert(m1.consents[j].owner == m.consents[j].owner && m1.consents[j].record_hash
                    == m.consents[j].record_hash && m1.consents[j].doctor
                    == m.consents[j].doctor);
            }
        }
    }
}

/// The authorization service.  It alone writes to the two ledgers: the
/// commitment ledger is append-only, and a stored grant changes only by the
/// irreversible flip of its `revoked` flag.
pub struct Ledger {
    records: Vec<RecordAccount>,
    consents: Vec<ConsentAccount>,
}

impl View for Ledger {
    type V = LedgerModel;

    closed spec fn view(&self) -> LedgerModel {
        LedgerModel {
            records: self.records@.map_values(|r: RecordAccount| r@),
            consents: self.consents@.map_values(|c: ConsentAccount| c@),
        }
    }
}

impl Ledger {
    /// Well-formedness: the keys of both ledgers are injective.  `new`
    /// establishes it and every operation preserves it.
    pub open spec fn wf(&self) -> bool {
        ledger_wf(self@)
    }

    /// Creates an empty service: no commitments, no grants.
    pub fn new() -> (l: Ledger)
        ensures
            l.wf(),
            l@.records.len() == 0,
            l@.consents.len() == 0,
    {
        Ledger { records: Vec::new(), consents: Vec::new() }
    }

    /// The position of the stored commitment keyed `(owner, record_hash)`,
    /// if any.
    fn find_record(&self, owner: &Pubkey, record_hash: &[u8; 32]) -> (r: Option<usize>)
        ensures
            match r {
                Some(i) => 0 <= i < self@.records.len() && record_key_matches(
                    self@.records[i as int],
                    owner@,
                    record_hash@,
                ),
                None => !has_record(self@.records, owner@, record_hash@),
            },
    {
        let n = self.records.len();
        let mut i: usize = 0;
        while i < n
            invariant
                0 <= i <= n,
                n == self.records.len(),
                forall|k: int|
                    0 <= k < i ==> !record_key_matches(#[trigger] self@.records[k], owner@, record_hash@),
            decreases n - i,
        {
            let candidate = &self.records[i];
            if pubkey_eq(&candidate.owner, owner) && bytes32_eq(&candidate.record_hash, record_hash) {
                return Some(i);
            }
            i = i + 1;
        }
        None
    }

    /// The position of the stored grant keyed `(owner, record_hash, doctor)`,
    /// if any.
    fn find_consent(&self, owner: &Pubkey, record_hash: &[u8; 32], doctor: &Pubkey) -> (r: Option<
        usize,
    >)
        ensures
            match r {
                Some(i) => 0 <= i < self@.consents.len() && consent_key_matches(
                    self@.consents[i as int],
                    owner@,
                    record_hash@,
                    doctor@,
                ),
                None => !has_consent(self@.consents, owner@, record_hash@, doctor@),
            },
    {
        let n = self.consents.len();
        let mut i: usize = 0;
        while i < n
            invariant
                0 <= i <= n,
                n == self.consents.len(),
                forall|k: int|
                    0 <= k < i ==> !consent_key_matches(
                        #[trigger] self@.consents[k],
                        owner@,
                        record_hash@,
                        doctor@,
                    ),
            decreases n - i,
        {
            let candidate = &self.consents[i];
            if pubkey_eq(&candidate.owner, owner) && bytes32_eq(&candidate.record_hash, record_hash)
                && pubkey_eq(&candidate.doctor, doctor) {
                return Some(i);
            }
            i = i + 1;
        }
        None
    }

    /// Commits `record_hash` under `owner` as a proof of existence at time
    /// `now` (the host's trusted clock, so that the timestamp cannot be
    /// backdated by a client).
    ///
    /// The state and the result are exactly those of [`commit_outcome`]: the
    /// commit succeeds iff the caller is the owner and the key is new, and it
    /// then appends a commitment stamped `now`; `Unauthorized` and
    /// `DuplicateKey` otherwise, leaving the state unchanged.
    pub fn commit_record(
        &mut self,
        caller: &Pubkey,
        owner: &Pubkey,
        record_hash: &[u8; 32],
        now: i64,
    ) -> (result: Result<(), AtopyPassError>)
        requires
            old(self).wf(),
        ensures
            final(self).wf(),
            (final(self)@, result) == commit_outcome(
                old(self)@,
                caller@,
                owner@,
                record_hash@,
                now as int,
            ),
    {
        proof {
            lemma_commit_preserves_wf(self@, caller@, owner@, record_hash@, now as int);
        }
        if !pubkey_eq(caller, owner) {
            return Err(AtopyPassError::Unauthorized);
        }
        if self.find_record(owner, record_hash).is_some() {
            return Err(AtopyPassError::DuplicateKey);
        }
        let record = RecordAccount { owner: *owner, record_hash: *record_hash, timestamp: now };
        let ghost before = self@;
        self.records.push(record);
        proof {
            assert(self@.records =~= before.records.push(record@));
            assert(self@.consents =~= before.consents);
            assert(self@ =~= commit_outcome(before, caller@, owner@, record_hash@, now as int).0);
        }
        Ok(())
    }

    /// Grants `doctor` access consent for `(owner, record_hash)` until
    /// `expiry_ts`.
    ///
    /// The state and the result are exactly those of [`grant_outcome`]: the
    /// grant succeeds iff the caller is the owner and the key triple is new,
    /// and it then appends an unrevoked grant; `Unauthorized` and
    /// `DuplicateKey` otherwise, leaving the state unchanged.  A revoked
    /// grant keeps its key, so the same triple can never be granted again.
    pub fn grant_consent(
        &mut self,
        caller: &Pubkey,
        owner: &Pubkey,
        record_hash: &[u8; 32],
        doctor: &Pubkey,
        expiry_ts: i64,
    ) -> (result: Result<(), AtopyPassError>)
        requires
            old(self).wf(),
        ensures
            final(self).wf(),
            (final(self)@, result) == grant_outcome(
                old(self)@,
                caller@,
                owner@,
                record_hash@,
                doctor@,
                expiry_ts as int,
            ),
    {
        proof {
            lemma_grant_preserves_wf(self@, caller@, owner@, record_hash@, doctor@, expiry_ts as int);
        }
        if !pubkey_eq(caller, owner) {
            return Err(AtopyPassError::Unauthorized);
        }
        if self.find_consent(owner, record_hash, doctor).is_some() {
            return Err(AtopyPassError::DuplicateKey);
        }
        let consent = ConsentAccount {
            owner: *owner,
            record_hash: *record_hash,
            doctor: *doctor,
            expiry_ts: expiry_ts,
            revoked: false,
        };
        let ghost before = self@;
        self.consents.push(consent);
        proof {
            assert(self@.consents =~= before.consents.push(consent@));
            assert(self@.records =~= before.records);
            assert(self@ =~= grant_outcome(
                before,
                caller@,
                owner@,
                record_hash@,
                doctor@,
                expiry_ts as int,
            ).0);
        }
        Ok(())
    }

    /// Revokes the grant keyed `(owner, record_hash, doctor)`, irreversibly.
    ///
    /// The state and the result are exactly those of [`revoke_outcome`]: the
    /// revocation succeeds iff the grant exists, the caller is its owner, and
    /// it is not yet revoked, and it then flips only that grant's `revoked`
    /// flag; `NotFound`, `Unauthorized`, and `AlreadyRevoked` otherwise (in
    /// that order of checking, as the stored state allows), leaving the state
    /// unchanged.  An expired grant is still revocable.
    pub fn revoke_consent(
        &mut self,
        caller: &Pubkey,
        owner: &Pubkey,
        record_hash: &[u8; 32],
        doctor: &Pubkey,
    ) -> (result: Result<(), AtopyPassError>)
        requires
            old(self).wf(),
        ensures
            final(self).wf(),
            (final(self)@, result) == revoke_outcome(
                old(self)@,
                caller@,
                owner@,
                record_hash@,
                doctor@,
            ),
    {
        proof {
            lemma_revoke_preserves_wf(self@, caller@, owner@, record_hash@, doctor@);
        }
        let idx = match self.find_consent(owner, record_hash, doctor) {
            None => {
                return Err(AtopyPassError::NotFound);
            },
            Some(i) => i,
        };
        proof {
            lemma_consent_found(self@.consents, owner@, record_hash@, doctor@, idx as int);
        }
        if !pubkey_eq(caller, owner) {
            return Err(AtopyPassError::Unauthorized);
        }
        if self.consents[idx].revoked {
            return Err(AtopyPassError::AlreadyRevoked);
        }
        let ghost before = self@;
        let mut revoked_entry = self.consents[idx];
        revoked_entry.revoked = true;
        self.consents[idx] = revoked_entry;
        proof {
            assert(self@.consents =~= before.consents.update(
                idx as int,
                revoked_consent(before.consents[idx as int]),
            ));
            assert(self@.records =~= before.records);
            assert(self@ =~= revoke_outcome(before, caller@, owner@, record_hash@, doctor@).0);
        }
        Ok(())
    }

    /// Is the grant `(owner, record_hash, doctor)` valid at `at_time`?  True
    /// iff the grant is stored, not revoked, and `at_time < expiry_ts`.  This
    /// is the one authorization check downstream consumers rely on; it never
    /// mutates the ledgers.
    pub fn is_consent_valid(
        &self,
        owner: &Pubkey,
        record_hash: &[u8; 32],
        doctor: &Pubkey,
        at_time: i64,
    ) -> (valid: bool)
        requires
            self.wf(),
        ensures
            valid == consent_valid(self@.consents, owner@, record_hash@, doctor@, at_time as int),
    {
        match self.find_consent(owner, record_hash, doctor) {
            None => false,
            Some(i) => {
                proof {
                    lemma_consent_found(self@.consents, owner@, record_hash@, doctor@, i as int);
                }
                let consent = &self.consents[i];
                !consent.revoked && at_time < consent.expiry_ts
            },
        }
    }

    /// The stored commitment keyed `(owner, record_hash)`, if any.
    pub fn get_record(&self, owner: &Pubkey, record_hash: &[u8; 32]) -> (r: Option<RecordAccount>)
        requires
            self.wf(),
        ensures
            match r {
                Some(record) => has_record(self@.records, owner@, record_hash@) && record@
                    == record_at(self@.records, owner@, record_hash@),
                None => !has_record(self@.records, owner@, record_hash@),
            },
    {
        match self.find_record(owner, record_hash) {
            None => None,
            Some(i) => {
                proof {
                    lemma_record_found(self@.records, owner@, record_hash@, i as int);
                }
                Some(self.records[i])
            },
        }
    }

    /// The stored grant keyed `(owner, record_hash, doctor)`, if any.
    pub fn get_consent(&self, owner: &Pubkey, record_hash: &[u8; 32], doctor: &Pubkey) -> (r:
        Option<ConsentAccount>)
        requires
            self.wf(),
        ensures
            match r {
                Some(consent) => has_consent(self@.consents, owner@, record_hash@, doctor@)
                    && consent@ == consent_at(self@.consents, owner@, record_hash@, doctor@),
                None => !has_consent(self@.consents, owner@, record_hash@, doctor@),
            },
    {
        match self.find_consent(owner, record_hash, doctor) {
            None => None,
            Some(i) => {
                proof {
                    lemma_consent_found(self@.consents, owner@, record_hash@, doctor@, i as int);
                }
                Some(self.consents[i])
            },
        }
    }
}

} // verus!
