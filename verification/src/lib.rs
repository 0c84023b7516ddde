//! A minimal consent-and-provenance ledger.
//!
//! A record owner commits a 32-byte content hash as a proof of existence,
//! grants a named grantee time-limited access consent for that hash, revokes
//! such a grant irreversibly, and queries whether a grant is valid at a given
//! time.  The authorization service enforces key uniqueness, ownership, and
//! the irreversibility of revocation; the hosting transport is expected to
//! verify caller identities and supply the clock.

pub mod state;
pub mod ledger;
pub mod laws;
