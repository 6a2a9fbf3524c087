//! The registry's entity records, error kinds and derived validity status.

use vstd::prelude::*;

verus! {

/// An authenticated account, as the host's identity oracle reports it.
pub type Identity = u64;

/// A logical, monotonically non-decreasing timestamp supplied by the host.
pub type Timestamp = u64;

/// A credential identifier; identifiers are dense from zero.
pub type CredId = u64;

/// An issuer's registry entry: display name and active flag.
pub struct IssuerRecord {
    pub name: String,
    pub active: bool,
}

impl Clone for IssuerRecord {
    fn clone(&self) -> (res: Self)
        ensures
            res == *self,
    {
        IssuerRecord { name: self.name.clone(), active: self.active }
    }
}

/// An immutable claim record linking an issuer and a holder. Only the
/// one-way `revoked` flag ever changes after issuance; `institution` is a
/// snapshot of the issuer's display name at issuance time.
pub struct Credential {
    pub issuer: Identity,
    pub holder: Identity,
    pub cred_type: String,
    pub title: String,
    pub institution: String,
    pub issued_at: Timestamp,
    pub expires_at: Timestamp,
    pub revoked: bool,
    pub metadata_hash: String,
    pub schema_version: u64,
}

impl Clone for Credential {
    fn clone(&self) -> (res: Self)
        ensures
            res == *self,
    {
        Credential {
            issuer: self.issuer,
            holder: self.holder,
            cred_type: self.cred_type.clone(),
            title: self.title.clone(),
            institution: self.institution.clone(),
            issued_at: self.issued_at,
            expires_at: self.expires_at,
            revoked: self.revoked,
            metadata_hash: self.metadata_hash.clone(),
            schema_version: self.schema_version,
        }
    }
}

/// The audit entry written exactly once when a credential is revoked.
pub struct RevocationRecord {
    pub revoked_by: Identity,
    pub revoked_at: Timestamp,
    pub reason: String,
}

impl Clone for RevocationRecord {
    fn clone(&self) -> (res: Self)
        ensures
            res == *self,
    {
        RevocationRecord {
            revoked_by: self.revoked_by,
            revoked_at: self.revoked_at,
            reason: self.reason.clone(),
        }
    }
}

/// Every failure a registry operation can report. A failing operation
/// performs no writes.
#[derive(Clone, Copy, Debug, PartialEq, Eq, Structural)]
pub enum Error {
    NotOwner,
    NotIssuer,
    NotCredIssuer,
    NotFound,
    AlreadyRevoked,
    IssuerExists,
    BatchLimitExceeded,
}

/// A credential's derived, time-sensitive classification. It is computed
/// fresh on every read and never stored.
#[derive(Clone, Copy, Debug, PartialEq, Eq, Structural)]
pub enum VerifyStatus {
    Valid,
    Revoked,
    Expired,
    IssuerInactive,
}

/// What `verify` reports: the full status, a snapshot of the credential,
/// and the issuer's current display name and active flag ("Unknown" and
/// inactive when the issuer was never registered).
pub struct VerifyReport {
    pub status: VerifyStatus,
    pub credential: Credential,
    pub issuer_name: String,
    pub issuer_active: bool,
}

} // verus!
