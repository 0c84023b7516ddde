//! Data model: identities, stored commitments and grants, their mathematical
//! models, and the error taxonomy of the authorization service.

use vstd::prelude::*;

verus! {

/// A 32-byte public key identifying an owner or a grantee.
///
/// The hosting transport proves possession of the matching secret key before
/// the service runs; the service itself receives the identity as a trusted
/// plain value and only ever compares identities for equality.
#[derive(Clone, Copy, Debug)]
pub struct Pubkey {
    pub bytes: [u8; 32],
}

impl View for Pubkey {
    type V = Seq<u8>;

    open spec fn view(&self) -> Seq<u8> {
        self.bytes@
    }
}

/// A stored existence commitment: `owner` committed `record_hash` at
/// `timestamp` (integer seconds).  Keyed by `(owner, record_hash)`;
/// immutable once created and never deleted.
#[derive(Clone, Copy, Debug)]
pub struct RecordAccount {
    pub owner: Pubkey,
    pub record_hash: [u8; 32],
    pub timestamp: i64,
}

/// The mathematical model of a stored commitment.
#[verifier::ext_equal]
pub ghost struct RecordModel {
    pub owner: Seq<u8>,
    pub record_hash: Seq<u8>,
    pub timestamp: int,
}

impl View for RecordAccount {
    type V = RecordModel;

    open spec fn view(&self) -> RecordModel {
        RecordModel {
            owner: self.owner@,
            record_hash: self.record_hash@,
            timestamp: self.timestamp as int,
        }
    }
}

/// A stored access grant: `owner` allows `doctor` to be treated as authorized
/// for `record_hash` until `expiry_ts`, unless revoked first.  Keyed by
/// `(owner, record_hash, doctor)`; the only permitted mutation is the
/// irreversible transition of `revoked` from `false` to `true`.
#[derive(Clone, Copy, Debug)]
pub struct ConsentAccount {
    pub owner: Pubkey,
    pub record_hash: [u8; 32],
    pub doctor: Pubkey,
    pub expiry_ts: i64,
    pub revoked: bool,
}

/// The mathematical model of a stored grant.
#[verifier::ext_equal]
pub ghost struct ConsentModel {
    pub owner: Seq<u8>,
    pub record_hash: Seq<u8>,
    pub doctor: Seq<u8>,
    pub expiry_ts: int,
    pub revoked: bool,
}

impl View for ConsentAccount {
    type V = ConsentModel;

    open spec fn view(&self) -> ConsentModel {
        ConsentModel {
            owner: self.owner@,
            record_hash: self.record_hash@,
            doctor: self.doctor@,
            expiry_ts: self.expiry_ts as int,
            revoked: self.revoked,
        }
    }
}

/// Why an operation was rejected.  Every rejected operation leaves the
/// ledgers unchanged.
#[derive(Clone, Copy, Debug, PartialEq, Eq, Structural)]
pub enum AtopyPassError {
    /// A revocation targeted a grant whose `revoked` flag is already set.
    AlreadyRevoked,
    /// The caller's identity does not match the required owner.
    Unauthorized,
    /// Creation targeted a `(owner, record_hash)` or
    /// `(owner, record_hash, doctor)` key that already exists.
    DuplicateKey,
    /// A revocation targeted a grant that does not exist.
    NotFound,
}

/// Compares two 32-byte values for equality.
pub fn bytes32_eq(a: &[u8; 32], b: &[u8; 32]) -> (r: bool)
    ensures
        r == (a@ == b@),
{
    let mut i: usize = 0;
    while i < 32
        invariant
            0 <= i <= 32,
            forall|k: int| 0 <= k < i ==> a@[k] == b@[k],
        decreases 32 - i,
    {
        if a[i] != b[i] {
            return false;
        }
        i = i + 1;
    }
    proof {
        assert(a@ =~= b@);
    }
    true
}

/// Compares two identities for equality.
pub fn pubkey_eq(a: &Pubkey, b: &Pubkey) -> (r: bool)
    ensures
        r == (a@ == b@),
{
    bytes32_eq(&a.bytes, &b.bytes)
}

} // verus!
