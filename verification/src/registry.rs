//! The credential registry: one instance owns every entity store and
//! enforces the access-control and consistency rules on each operation.
//!
//! The surrounding host injects the authenticated caller and the current
//! logical time into every call; the registry itself is a deterministic
//! state transition function over those values.
//!
//! Error policy: the mutating operations and `verify` are strict (an
//! unknown credential identifier is reported as `NotFound`), while the
//! plain read operations are lenient (absence is an empty or absent
//! result). `is_valid` is the cheap variant: it returns `false` for an
//! unknown identifier and deliberately omits the issuer-inactive check
//! that `verify` performs.

use vstd::prelude::*;

use crate::assoc::assoc_find;
use crate::assoc::assoc_get;
use crate::assoc::assoc_has;
use crate::assoc::append_to_index;
use crate::assoc::copy_ids;
use crate::assoc::index_ids;
use crate::assoc::lemma_assoc_at;
use crate::assoc::lemma_assoc_none;
use crate::assoc::lemma_assoc_push;
use crate::assoc::lemma_assoc_push_unique;
use crate::assoc::lemma_assoc_update;
use crate::assoc::unique_keys;
use crate::types::CredId;
use crate::types::Credential;
use crate::types::Error;
use crate::types::Identity;
use crate::types::IssuerRecord;
use crate::types::RevocationRecord;
use crate::types::Timestamp;
use crate::types::VerifyReport;
use crate::types::VerifyStatus;

verus! {

/// The most holders one `batch_issue` call may serve; the cap bounds the
/// resources a single call can consume.
pub const BATCH_LIMIT: usize = 10;

/// The key a credential contributes to the holder index (`true`) or to
/// the issuer index (`false`).
pub open spec fn key_of(c: Credential, by_holder: bool) -> u64 {
    if by_holder {
        c.holder
    } else {
        c.issuer
    }
}

/// A single index list is sound for `creds`: every listed identifier
/// names a stored credential whose key matches, and the list is strictly
/// increasing (issuance order, without duplicates).
pub open spec fn entry_ok(creds: Seq<Credential>, by_holder: bool, h: u64, l: Seq<u64>) -> bool {
    &&& forall|j: int|
        0 <= j < l.len() ==> (#[trigger] l[j]) < creds.len() && key_of(
            creds[l[j] as int],
            by_holder,
        ) == h
    &&& forall|j1: int, j2: int| 0 <= j1 < j2 < l.len() ==> #[trigger] l[j1] < #[trigger] l[j2]
}

/// A secondary index agrees with the credential store: sound per key, and
/// complete (every stored credential is listed under its key).
pub open spec fn index_ok(creds: Seq<Credential>, idx: Seq<(u64, Vec<u64>)>, by_holder: bool) -> bool {
    &&& unique_keys(idx)
    &&& forall|h: u64| entry_ok(creds, by_holder, h, #[trigger] index_ids(idx, h))
    &&& forall|id: int|
        0 <= id < creds.len() ==> #[trigger] index_ids(idx, key_of(creds[id], by_holder)).contains(
            id as u64,
        )
}

/// A sequence keeps its members when a value is appended.
proof fn lemma_push_contains(s: Seq<u64>, x: u64, y: u64)
    requires
        s.contains(y),
    ensures
        s.push(x).contains(y),
{
    let j = choose|j: int| 0 <= j < s.len() && s[j] == y;
    assert(s.push(x)[j] == y);
}

/// Extending the store with one credential and appending its identifier
/// to the list under its key keeps a secondary index consistent.
proof fn lemma_index_ok_push(
    creds: Seq<Credential>,
    c: Credential,
    by_holder: bool,
    idx0: Seq<(u64, Vec<u64>)>,
    idx1: Seq<(u64, Vec<u64>)>,
)
    requires
        index_ok(creds, idx0, by_holder),
        unique_keys(idx1),
        creds.len() <= u64::MAX,
        index_ids(idx1, key_of(c, by_holder)) == index_ids(idx0, key_of(c, by_holder)).push(
            creds.len() as u64,
        ),
        forall|k2: u64|
            k2 != key_of(c, by_holder) ==> index_ids(idx1, k2) == index_ids(idx0, k2),
    ensures
        index_ok(creds.push(c), idx1, by_holder),
{
    let n = creds.len() as u64;
    let key = key_of(c, by_holder);
    let creds1 = creds.push(c);
    assert forall|h: u64| entry_ok(creds1, by_holder, h, #[trigger] index_ids(idx1, h)) by {
        let l0 = index_ids(idx0, h);
        let l1 = index_ids(idx1, h);
        assert(entry_ok(creds, by_holder, h, l0));
        if h == key {
            assert(l1 == l0.push(n));
            assert forall|j: int|
                0 <= j < l1.len() implies (#[trigger] l1[j]) < creds1.len() && key_of(
                creds1[l1[j] as int],
                by_holder,
            ) == h by {
                if j < l0.len() {
                    assert(l1[j] == l0[j]);
                    assert(creds1[l0[j] as int] == creds[l0[j] as int]);
                } else {
                    assert(l1[j] == n);
                    assert(creds1[n as int] == c);
                }
            }
            assert forall|j1: int, j2: int|
                #![trigger l1[j1], l1[j2]]
                0 <= j1 < j2 < l1.len() implies l1[j1] < l1[j2] by {
                if j2 < l0.len() {
                    assert(l1[j1] == l0[j1] && l1[j2] == l0[j2]);
                } else {
                    assert(l1[j2] == n);
                    assert(l1[j1] == l0[j1]);
                    assert(l0[j1] < creds.len());
                }
            }
        } else {
            assert(l1 == l0);
            assert forall|j: int|
                0 <= j < l1.len() implies (#[trigger] l1[j]) < creds1.len() && key_of(
                creds1[l1[j] as int],
                by_holder,
            ) == h by {
                assert(creds1[l0[j] as int] == creds[l0[j] as int]);
            }
        }
    }
    assert forall|id: int|
        0 <= id < creds1.len() implies #[trigger] index_ids(
        idx1,
        key_of(creds1[id], by_holder),
    ).contains(id as u64) by {
        if id < creds.len() {
            assert(creds1[id] == creds[id]);
            assert(index_ids(idx0, key_of(creds[id], by_holder)).contains(id as u64));
            if key_of(creds[id], by_holder) == key {
                lemma_push_contains(index_ids(idx0, key), n, id as u64);
            }
        } else {
            assert(creds1[id] == c);
            let l1 = index_ids(idx1, key);
            let l0 = index_ids(idx0, key);
            assert(l1 == l0.push(n));
            assert(l1[l0.len() as int] == n);
            assert(l1.contains(n));
        }
    }
}

/// Replacing a stored credential without changing the key it contributes
/// to an index keeps that index consistent.
proof fn lemma_index_ok_update(
    creds: Seq<Credential>,
    i: int,
    c2: Credential,
    idx: Seq<(u64, Vec<u64>)>,
    by_holder: bool,
)
    requires
        index_ok(creds, idx, by_holder),
        0 <= i < creds.len(),
        key_of(c2, by_holder) == key_of(creds[i], by_holder),
    ensures
        index_ok(creds.update(i, c2), idx, by_holder),
{
    let creds1 = creds.update(i, c2);
    assert forall|h: u64| entry_ok(creds1, by_holder, h, #[trigger] index_ids(idx, h)) by {
        let l = index_ids(idx, h);
        assert(entry_ok(creds, by_holder, h, l));
        assert forall|j: int|
            0 <= j < l.len() implies (#[trigger] l[j]) < creds1.len() && key_of(
            creds1[l[j] as int],
            by_holder,
        ) == h by {
            if l[j] == i {
                assert(creds1[i] == c2);
            } else {
                assert(creds1[l[j] as int] == creds[l[j] as int]);
            }
        }
    }
    assert forall|id: int|
        0 <= id < creds1.len() implies #[trigger] index_ids(
        idx,
        key_of(creds1[id], by_holder),
    ).contains(id as u64) by {
        if id == i {
            assert(key_of(creds1[id], by_holder) == key_of(creds[id], by_holder));
        } else {
            assert(creds1[id] == creds[id]);
        }
        assert(index_ids(idx, key_of(creds[id], by_holder)).contains(id as u64));
    }
}

/// What `revoke` reports for a given pre-state, caller and identifier.
pub open spec fn revoke_outcome(pre: CasperCreds, caller: Identity, id: CredId) -> Result<
    (),
    Error,
> {
    if id >= pre.cred_count() {
        Err(Error::NotFound)
    } else if pre.credentials@[id as int].issuer != caller {
        Err(Error::NotCredIssuer)
    } else if pre.credentials@[id as int].revoked {
        Err(Error::AlreadyRevoked)
    } else {
        Ok(())
    }
}

/// The status of a credential as a function of its record, the issuer's
/// current registry entry, and the current time. The revoked check comes
/// first, then expiry, then the issuer-inactive check.
pub open spec fn spec_status(c: Credential, issuer: Option<IssuerRecord>, now: Timestamp) -> VerifyStatus {
    if c.revoked {
        VerifyStatus::Revoked
    } else if c.expires_at != 0 && now > c.expires_at {
        VerifyStatus::Expired
    } else if issuer matches Some(rec) && !rec.active {
        VerifyStatus::IssuerInactive
    } else {
        VerifyStatus::Valid
    }
}

/// The credential registry. Construct it with [`CasperCreds::init`]; the
/// constructor is the whole lifecycle, so a second initialization of the
/// same instance is unrepresentable.
pub struct CasperCreds {
    /// The administrative owner; mutated only by `transfer_ownership`.
    pub owner: Identity,
    /// The global default stamped onto newly issued credentials.
    pub schema_version: u64,
    /// Whether unregistered callers may issue credentials at all; when
    /// they may, their credentials carry the sentinel institution name.
    pub allow_self_issuance: bool,
    /// Registered issuers, keyed by identity.
    pub issuers: Vec<(u64, IssuerRecord)>,
    /// The primary credential store; a credential's identifier is its
    /// position, so identifiers are unique and dense from zero.
    pub credentials: Vec<Credential>,
    /// One-to-one revocation records, positionally keyed like the store.
    pub revocations: Vec<Option<RevocationRecord>>,
    /// Credential identifiers grouped by holder, in issuance order.
    pub holder_index: Vec<(u64, Vec<u64>)>,
    /// Credential identifiers grouped by issuer, in issuance order.
    pub issuer_index: Vec<(u64, Vec<u64>)>,
}

impl CasperCreds {
    /// The number of credentials ever issued, which is also the next
    /// identifier to be allocated.
    pub open spec fn cred_count(&self) -> nat {
        self.credentials@.len()
    }

    /// The issuer record registered under `a`, if any.
    pub open spec fn issuer_rec(&self, a: Identity) -> Option<IssuerRecord> {
        assoc_get(self.issuers@, a)
    }

    /// The identifiers of the credentials issued to `h`, in issuance order.
    pub open spec fn holder_ids(&self, h: Identity) -> Seq<u64> {
        index_ids(self.holder_index@, h)
    }

    /// The identifiers of the credentials issued by `a`, in issuance order.
    pub open spec fn issuer_ids(&self, a: Identity) -> Seq<u64> {
        index_ids(self.issuer_index@, a)
    }

    /// The revocation record for credential `id`, if one exists.
    pub open spec fn revocation_at(&self, id: int) -> Option<RevocationRecord> {
        self.revocations@[id]
    }

    /// Whether `caller` may issue credentials in the current state.
    pub open spec fn can_issue(&self, caller: Identity) -> bool {
        match assoc_get(self.issuers@, caller) {
            Some(rec) => rec.active,
            None => self.allow_self_issuance,
        }
    }

    /// The institution name a credential issued by `caller` would carry:
    /// the issuer's registered display name, or the self-issuance sentinel.
    pub open spec fn institution_for(&self, caller: Identity) -> Seq<char> {
        match assoc_get(self.issuers@, caller) {
            Some(rec) => rec.name@,
            None => "Self-Issued"@,
        }
    }

    /// The registry's internal consistency invariant: revocation records
    /// exist exactly for revoked credentials and were written by the
    /// credential's issuer, issuer keys are unique, and both secondary
    /// indexes agree with the primary store.
    pub open spec fn wf(&self) -> bool {
        &&& self.revocations@.len() == self.credentials@.len()
        &&& forall|i: int|
            0 <= i < self.credentials@.len() ==> ((#[trigger] self.revocations@[i]) is Some
                <==> self.credentials@[i].revoked)
        &&& forall|i: int|
            0 <= i < self.credentials@.len() ==> match #[trigger] self.revocations@[i] {
                Some(rr) => rr.revoked_by == self.credentials@[i].issuer,
                None => true,
            }
        &&& unique_keys(self.issuers@)
        &&& index_ok(self.credentials@, self.holder_index@, true)
        &&& index_ok(self.credentials@, self.issuer_index@, false)
    }

    /// Creates the one registry instance: the caller reported by the host
    /// becomes the owner, no credentials exist, and the record-shape
    /// version defaults to 1. `allow_self_issuance` selects between the
    /// permissive variant (unregistered callers may issue, under the
    /// institution name `"Self-Issued"`) and the gated variant.
    pub fn init(caller: Identity, allow_self_issuance: bool) -> (r: CasperCreds)
        ensures
            r.wf(),
            r.owner == caller,
            r.schema_version == 1,
            r.allow_self_issuance == allow_self_issuance,
            r.cred_count() == 0,
            forall|a: Identity| r.issuer_rec(a) is None,
            forall|h: Identity| r.holder_ids(h) == Seq::<u64>::empty(),
            forall|a: Identity| r.issuer_ids(a) == Seq::<u64>::empty(),
    {
        let r = CasperCreds {
            owner: caller,
            schema_version: 1,
            allow_self_issuance,
            issuers: Vec::new(),
            credentials: Vec::new(),
            revocations: Vec::new(),
            holder_index: Vec::new(),
            issuer_index: Vec::new(),
        };
        proof {
            assert forall|a: Identity| r.issuer_rec(a) is None by {
                lemma_assoc_none(r.issuers@, a);
            }
            assert forall|h: u64| r.holder_ids(h) == Seq::<u64>::empty() by {
                lemma_assoc_none(r.holder_index@, h);
            }
            assert forall|a: u64| r.issuer_ids(a) == Seq::<u64>::empty() by {
                lemma_assoc_none(r.issuer_index@, a);
            }
        }
        r
    }

    /// The total number of credentials ever issued. The next credential's
    /// identifier always equals this value.
    pub fn total(&self) -> (r: u64)
        ensures
            r == self.cred_count(),
    {
        self.credentials.len() as u64
    }

    /// The registry's administrative owner.
    pub fn owner(&self) -> (r: Identity)
        ensures
            r == self.owner,
    {
        self.owner
    }

    /// The schema version stamped onto newly issued credentials.
    pub fn schema_version(&self) -> (r: u64)
        ensures
            r == self.schema_version,
    {
        self.schema_version
    }

    /// A snapshot of the stored credential, or `None` for an unknown
    /// identifier (lenient read: absence is not a failure).
    pub fn get_credential(&self, id: CredId) -> (r: Option<Credential>)
        ensures
            match r {
                Some(c) => id < self.cred_count() && c == self.credentials@[id as int],
                None => id >= self.cred_count(),
            },
    {
        if id < self.credentials.len() as u64 {
            Some(self.credentials[id as usize].clone())
        } else {
            None
        }
    }

    /// The revocation record for `id`, or `None` when the credential is
    /// unknown or not revoked.
    pub fn get_revocation(&self, id: CredId) -> (r: Option<RevocationRecord>)
        requires
            self.wf(),
        ensures
            match r {
                Some(rr) => id < self.cred_count() && self.revocation_at(id as int) == Some(rr),
                None => id >= self.cred_count() || self.revocation_at(id as int) is None,
            },
    {
        if id < self.revocations.len() as u64 {
            match &self.revocations[id as usize] {
                Some(rr) => Some(rr.clone()),
                None => None,
            }
        } else {
            None
        }
    }

    /// The identifiers of all credentials issued to `holder`, in issuance
    /// order; empty when none exist.
    pub fn get_holder_creds(&self, holder: Identity) -> (r: Vec<u64>)
        requires
            self.wf(),
        ensures
            r@ == self.holder_ids(holder),
    {
        match assoc_find(&self.holder_index, holder) {
            Some(i) => {
                proof {
                    lemma_assoc_at(self.holder_index@, i as int);
                }
                copy_ids(&self.holder_index[i].1)
            },
            None => {
                proof {
                    lemma_assoc_none(self.holder_index@, holder);
                    assert(self.holder_ids(holder) =~= Seq::<u64>::empty());
                }
                Vec::new()
            },
        }
    }

    /// The identifiers of all credentials issued by `issuer`, in issuance
    /// order; empty when none exist.
    pub fn get_issuer_creds(&self, issuer: Identity) -> (r: Vec<u64>)
        requires
            self.wf(),
        ensures
            r@ == self.issuer_ids(issuer),
    {
        match assoc_find(&self.issuer_index, issuer) {
            Some(i) => {
                proof {
                    lemma_assoc_at(self.issuer_index@, i as int);
                }
                copy_ids(&self.issuer_index[i].1)
            },
            None => {
                proof {
                    lemma_assoc_none(self.issuer_index@, issuer);
                    assert(self.issuer_ids(issuer) =~= Seq::<u64>::empty());
                }
                Vec::new()
            },
        }
    }

    /// The registered display name and active flag of `addr`, or `None`
    /// when `addr` was never registered as an issuer.
    pub fn get_issuer(&self, addr: Identity) -> (r: Option<(String, bool)>)
        requires
            self.wf(),
        ensures
            match r {
                Some(p) => self.issuer_rec(addr) matches Some(rec) && p.0 == rec.name && p.1
                    == rec.active,
                None => self.issuer_rec(addr) is None,
            },
    {
        match assoc_find(&self.issuers, addr) {
            Some(i) => {
                proof {
                    lemma_assoc_at(self.issuers@, i as int);
                }
                Some((self.issuers[i].1.name.clone(), self.issuers[i].1.active))
            },
            None => {
                proof {
                    lemma_assoc_none(self.issuers@, addr);
                }
                None
            },
        }
    }

    /// Registers `issuer` under `name`, active. Only the owner may do
    /// this; an already-registered issuer is refused, and a refused call
    /// writes nothing.
    pub fn register_issuer(&mut self, caller: Identity, issuer: Identity, name: String) -> (r:
        Result<(), Error>)
        requires
            old(self).wf(),
        ensures
            final(self).wf(),
            r is Err ==> *final(self) == *old(self),
            r == (if caller != old(self).owner {
                Err::<(), Error>(Error::NotOwner)
            } else if assoc_has(old(self).issuers@, issuer) {
                Err::<(), Error>(Error::IssuerExists)
            } else {
                Ok::<(), Error>(())
            }),
            r is Ok ==> {
                &&& final(self).issuer_rec(issuer) matches Some(rec) && rec.name == name
                    && rec.active
                &&& forall|a: Identity|
                    a != issuer ==> final(self).issuer_rec(a) == old(self).issuer_rec(a)
                &&& final(self).owner == old(self).owner
                &&& final(self).schema_version == old(self).schema_version
                &&& final(self).allow_self_issuance == old(self).allow_self_issuance
                &&& final(self).credentials@ == old(self).credentials@
                &&& final(self).revocations@ == old(self).revocations@
                &&& final(self).holder_index@ == old(self).holder_index@
                &&& final(self).issuer_index@ == old(self).issuer_index@
            },
    {
        if caller != self.owner {
            return Err(Error::NotOwner);
        }
        match assoc_find(&self.issuers, issuer) {
            Some(i) => {
                proof {
                    lemma_assoc_at(self.issuers@, i as int);
                }
                Err(Error::IssuerExists)
            },
            None => {
                proof {
                    lemma_assoc_none(self.issuers@, issuer);
                }
                let ghost s0 = self.issuers@;
                let rec = IssuerRecord { name, active: true };
                self.issuers.push((issuer, rec));
                proof {
                    let ghost pushed = self.issuers@.last().1;
                    lemma_assoc_push_unique(s0, issuer, pushed);
                    lemma_assoc_push(s0, issuer, pushed, issuer);
                    assert forall|a: Identity|
                        a != issuer implies self.issuer_rec(a) == assoc_get(s0, a) by {
                        lemma_assoc_push(s0, issuer, pushed, a);
                    }
                }
                Ok(())
            },
        }
    }

    /// Sets the active flag of a registered issuer, preserving its name.
    /// Only the owner may do this; an unknown issuer is a no-op.
    fn set_issuer_active(&mut self, caller: Identity, issuer: Identity, active: bool) -> (r:
        Result<(), Error>)
        requires
            old(self).wf(),
        ensures
            final(self).wf(),
            r is Err ==> *final(self) == *old(self),
            r == (if caller != old(self).owner {
                Err::<(), Error>(Error::NotOwner)
            } else {
                Ok::<(), Error>(())
            }),
            r is Ok ==> {
                &&& match old(self).issuer_rec(issuer) {
                    Some(rec) => final(self).issuer_rec(issuer) matches Some(rec2) && rec2.name
                        == rec.name && rec2.active == active,
                    None => *final(self) == *old(self),
                }
                &&& forall|a: Identity|
                    a != issuer ==> final(self).issuer_rec(a) == old(self).issuer_rec(a)
                &&& final(self).owner == old(self).owner
                &&& final(self).schema_version == old(self).schema_version
                &&& final(self).allow_self_issuance == old(self).allow_self_issuance
                &&& final(self).credentials@ == old(self).credentials@
                &&& final(self).revocations@ == old(self).revocations@
                &&& final(self).holder_index@ == old(self).holder_index@
                &&& final(self).issuer_index@ == old(self).issuer_index@
            },
    {
        if caller != self.owner {
            return Err(Error::NotOwner);
        }
        match assoc_find(&self.issuers, issuer) {
            Some(i) => {
                proof {
                    lemma_assoc_at(self.issuers@, i as int);
                }
                let ghost s0 = self.issuers@;
                let name2 = self.issuers[i].1.name.clone();
                let rec2 = IssuerRecord { name: name2, active };
                self.issuers.set(i, (issuer, rec2));
                proof {
                    let ghost v2 = self.issuers@[i as int].1;
                    assert(s0[i as int].0 == issuer);
                    assert(self.issuers@ == s0.update(i as int, (s0[i as int].0, v2)));
                    lemma_assoc_update(s0, i as int, v2, issuer);
                    assert forall|a: Identity|
                        a != issuer implies self.issuer_rec(a) == assoc_get(s0, a) by {
                        lemma_assoc_update(s0, i as int, v2, a);
                    }
                }
                Ok(())
            },
            None => {
                proof {
                    lemma_assoc_none(self.issuers@, issuer);
                }
                Ok(())
            },
        }
    }

    /// Marks a registered issuer inactive; its credentials then verify as
    /// `IssuerInactive` (unless revoked or expired). Owner only; unknown
    /// issuers are a no-op.
    pub fn deactivate_issuer(&mut self, caller: Identity, issuer: Identity) -> (r: Result<
        (),
        Error,
    >)
        requires
            old(self).wf(),
        ensures
            final(self).wf(),
            r is Err ==> *final(self) == *old(self),
            r == (if caller != old(self).owner {
                Err::<(), Error>(Error::NotOwner)
            } else {
                Ok::<(), Error>(())
            }),
            r is Ok ==> {
                &&& match old(self).issuer_rec(issuer) {
                    Some(rec) => final(self).issuer_rec(issuer) matches Some(rec2) && rec2.name
                        == rec.name && !rec2.active,
                    None => *final(self) == *old(self),
                }
                &&& forall|a: Identity|
                    a != issuer ==> final(self).issuer_rec(a) == old(self).issuer_rec(a)
                &&& final(self).owner == old(self).owner
                &&& final(self).schema_version == old(self).schema_version
                &&& final(self).allow_self_issuance == old(self).allow_self_issuance
                &&& final(self).credentials@ == old(self).credentials@
                &&& final(self).revocations@ == old(self).revocations@
                &&& final(self).holder_index@ == old(self).holder_index@
                &&& final(self).issuer_index@ == old(self).issuer_index@
            },
    {
        self.set_issuer_active(caller, issuer, false)
    }

    /// Marks a registered issuer active again, preserving its name.
    /// Owner only; unknown issuers are a no-op.
    pub fn reactivate_issuer(&mut self, caller: Identity, issuer: Identity) -> (r: Result<
        (),
        Error,
    >)
        requires
            old(self).wf(),
        ensures
            final(self).wf(),
            r is Err ==> *final(self) == *old(self),
            r == (if caller != old(self).owner {
                Err::<(), Error>(Error::NotOwner)
            } else {
                Ok::<(), Error>(())
            }),
            r is Ok ==> {
                &&& match old(self).issuer_rec(issuer) {
                    Some(rec) => final(self).issuer_rec(issuer) matches Some(rec2) && rec2.name
                        == rec.name && rec2.active,
                    None => *final(self) == *old(self),
                }
                &&& forall|a: Identity|
                    a != issuer ==> final(self).issuer_rec(a) == old(self).issuer_rec(a)
                &&& final(self).owner == old(self).owner
                &&& final(self).schema_version == old(self).schema_version
                &&& final(self).allow_self_issuance == old(self).allow_self_issuance
                &&& final(self).credentials@ == old(self).credentials@
                &&& final(self).revocations@ == old(self).revocations@
                &&& final(self).holder_index@ == old(self).holder_index@
                &&& final(self).issuer_index@ == old(self).issuer_index@
            },
    {
        self.set_issuer_active(caller, issuer, true)
    }

    /// Hands the registry to a new owner. Owner only; nothing else
    /// changes.
    pub fn transfer_ownership(&mut self, caller: Identity, new_owner: Identity) -> (r: Result<
        (),
        Error,
    >)
        requires
            old(self).wf(),
        ensures
            final(self).wf(),
            r is Err ==> *final(self) == *old(self),
            r == (if caller != old(self).owner {
                Err::<(), Error>(Error::NotOwner)
            } else {
                Ok::<(), Error>(())
            }),
            r is Ok ==> {
                &&& final(self).owner == new_owner
                &&& final(self).issuers@ == old(self).issuers@
                &&& final(self).schema_version == old(self).schema_version
                &&& final(self).allow_self_issuance == old(self).allow_self_issuance
                &&& final(self).credentials@ == old(self).credentials@
                &&& final(self).revocations@ == old(self).revocations@
                &&& final(self).holder_index@ == old(self).holder_index@
                &&& final(self).issuer_index@ == old(self).issuer_index@
            },
    {
        if caller != self.owner {
            return Err(Error::NotOwner);
        }
        self.owner = new_owner;
        Ok(())
    }

    /// Issues a credential to `holder` and returns its identifier, which
    /// is exactly the total observed before the call; the total then
    /// grows by one. The caller must be an active registered issuer, or,
    /// when self-issuance is allowed, may be unregistered, in which case
    /// the credential's institution snapshot is the sentinel
    /// `"Self-Issued"`. A refused call writes nothing.
    pub fn issue(
        &mut self,
        caller: Identity,
        now: Timestamp,
        holder: Identity,
        cred_type: String,
        title: String,
        expires_at: Timestamp,
        metadata_hash: String,
    ) -> (r: Result<CredId, Error>)
        requires
            old(self).wf(),
        ensures
            final(self).wf(),
            r is Err ==> *final(self) == *old(self),
            r is Err <==> !old(self).can_issue(caller),
            r is Err ==> r == Err::<CredId, Error>(Error::NotIssuer),
            r matches Ok(id) ==> {
                &&& id == old(self).cred_count()
                &&& final(self).cred_count() == old(self).cred_count() + 1
                &&& forall|i: int|
                    0 <= i < old(self).cred_count() ==> final(self).credentials@[i] == old(
                        self,
                    ).credentials@[i]
                &&& ({
                    let c = final(self).credentials@[id as int];
                    &&& c.issuer == caller
                    &&& c.holder == holder
                    &&& c.cred_type == cred_type
                    &&& c.title == title
                    &&& c.institution@ == old(self).institution_for(caller)
                    &&& c.issued_at == now
                    &&& c.expires_at == expires_at
                    &&& !c.revoked
                    &&& c.metadata_hash == metadata_hash
                    &&& c.schema_version == old(self).schema_version
                })
                &&& final(self).revocation_at(id as int) is None
                &&& forall|i: int|
                    0 <= i < old(self).cred_count() ==> final(self).revocation_at(i) == old(
                        self,
                    ).revocation_at(i)
                &&& final(self).holder_ids(holder) == old(self).holder_ids(holder).push(id)
                &&& forall|h: Identity|
                    h != holder ==> final(self).holder_ids(h) == old(self).holder_ids(h)
                &&& final(self).issuer_ids(caller) == old(self).issuer_ids(caller).push(id)
                &&& forall|a: Identity|
                    a != caller ==> final(self).issuer_ids(a) == old(self).issuer_ids(a)
                &&& final(self).issuers@ == old(self).issuers@
                &&& final(self).owner == old(self).owner
                &&& final(self).schema_version == old(self).schema_version
                &&& final(self).allow_self_issuance == old(self).allow_self_issuance
            },
    {
        let institution: String;
        match assoc_find(&self.issuers, caller) {
            Some(i) => {
                proof {
                    lemma_assoc_at(self.issuers@, i as int);
                }
                if !self.issuers[i].1.active {
                    return Err(Error::NotIssuer);
                }
                institution = self.issuers[i].1.name.clone();
            },
            None => {
                proof {
                    lemma_assoc_none(self.issuers@, caller);
                }
                if !self.allow_self_issuance {
                    return Err(Error::NotIssuer);
                }
                institution = String::from_str("Self-Issued");
            },
        }
        let id = self.credentials.len() as u64;
        let ghost creds0 = self.credentials@;
        let cred = Credential {
            issuer: caller,
            holder,
            cred_type,
            title,
            institution,
            issued_at: now,
            expires_at,
            revoked: false,
            metadata_hash,
            schema_version: self.schema_version,
        };
        self.credentials.push(cred);
        self.revocations.push(None);
        let ghost hidx0 = self.holder_index@;
        append_to_index(&mut self.holder_index, holder, id);
        let ghost iidx0 = self.issuer_index@;
        append_to_index(&mut self.issuer_index, caller, id);
        proof {
            let c = self.credentials@[id as int];
            assert(self.credentials@ == creds0.push(c));
            assert(key_of(c, true) == holder);
            assert(key_of(c, false) == caller);
            lemma_index_ok_push(creds0, c, true, hidx0, self.holder_index@);
            lemma_index_ok_push(creds0, c, false, iidx0, self.issuer_index@);
        }
        Ok(id)
    }

    /// Revokes credential `id` for `reason`. Revocation rights belong to
    /// the credential's original issuer alone — never the registry owner
    /// — and revocation is terminal: a second attempt is refused with
    /// `AlreadyRevoked` and writes nothing, as does every other refusal.
    pub fn revoke(&mut self, caller: Identity, now: Timestamp, id: CredId, reason: String) -> (r:
        Result<(), Error>)
        requires
            old(self).wf(),
        ensures
            final(self).wf(),
            r == revoke_outcome(*old(self), caller, id),
            r is Err ==> *final(self) == *old(self),
            r is Ok ==> {
                &&& final(self).cred_count() == old(self).cred_count()
                &&& ({
                    let c0 = old(self).credentials@[id as int];
                    let c1 = final(self).credentials@[id as int];
                    &&& c1.revoked
                    &&& c1.issuer == c0.issuer
                    &&& c1.holder == c0.holder
                    &&& c1.cred_type == c0.cred_type
                    &&& c1.title == c0.title
                    &&& c1.institution == c0.institution
                    &&& c1.issued_at == c0.issued_at
                    &&& c1.expires_at == c0.expires_at
                    &&& c1.metadata_hash == c0.metadata_hash
                    &&& c1.schema_version == c0.schema_version
                })
                &&& forall|i: int|
                    0 <= i < old(self).cred_count() && i != id ==> final(self).credentials@[i]
                        == old(self).credentials@[i]
                &&& final(self).revocation_at(id as int) matches Some(rr) && rr.revoked_by
                    == caller && rr.revoked_at == now && rr.reason == reason
                &&& forall|i: int|
                    0 <= i < old(self).cred_count() && i != id ==> final(self).revocation_at(i)
                        == old(self).revocation_at(i)
                &&& final(self).issuers@ == old(self).issuers@
                &&& final(self).owner == old(self).owner
                &&& final(self).schema_version == old(self).schema_version
                &&& final(self).allow_self_issuance == old(self).allow_self_issuance
                &&& final(self).holder_index@ == old(self).holder_index@
                &&& final(self).issuer_index@ == old(self).issuer_index@
            },
    {
        if id >= self.credentials.len() as u64 {
            return Err(Error::NotFound);
        }
        let i = id as usize;
        if self.credentials[i].issuer != caller {
            return Err(Error::NotCredIssuer);
        }
        if self.credentials[i].revoked {
            return Err(Error::AlreadyRevoked);
        }
        let ghost creds0 = self.credentials@;
        let mut c2 = self.credentials[i].clone();
        c2.revoked = true;
        self.credentials.set(i, c2);
        self.revocations.set(
            i,
            Some(RevocationRecord { revoked_by: caller, revoked_at: now, reason }),
        );
        proof {
            let c1 = self.credentials@[id as int];
            assert(self.credentials@ == creds0.update(id as int, c1));
            assert(key_of(c1, true) == key_of(creds0[id as int], true));
            assert(key_of(c1, false) == key_of(creds0[id as int], false));
            lemma_index_ok_update(creds0, id as int, c1, self.holder_index@, true);
            lemma_index_ok_update(creds0, id as int, c1, self.issuer_index@, false);
        }
        Ok(())
    }

    /// The derived status of credential `id` at time `now`.
    pub open spec fn status_of(&self, id: int, now: Timestamp) -> VerifyStatus {
        spec_status(
            self.credentials@[id],
            assoc_get(self.issuers@, self.credentials@[id].issuer),
            now,
        )
    }

    /// What `is_valid` reports: the cheap validity check, which returns
    /// `false` for unknown identifiers and skips the issuer-inactive
    /// check that `verify` performs.
    pub open spec fn spec_is_valid(&self, id: CredId, now: Timestamp) -> bool {
        &&& id < self.cred_count()
        &&& !self.credentials@[id as int].revoked
        &&& !(self.credentials@[id as int].expires_at != 0 && now > self.credentials@[
            id as int
        ].expires_at)
    }

    /// The full validity breakdown for credential `id` at time `now`:
    /// the status (revoked, then expired, then issuer-inactive, else
    /// valid), a snapshot of the credential, and the issuer's current
    /// display name and active flag — `"Unknown"` and inactive when the
    /// issuer was never registered, as happens for self-issued
    /// credentials. Strict read: an unknown identifier is `NotFound`.
    pub fn verify(&self, id: CredId, now: Timestamp) -> (r: Result<VerifyReport, Error>)
        requires
            self.wf(),
        ensures
            r is Err <==> id >= self.cred_count(),
            r is Err ==> r == Err::<VerifyReport, Error>(Error::NotFound),
            r matches Ok(rep) ==> {
                &&& rep.credential == self.credentials@[id as int]
                &&& rep.status == self.status_of(id as int, now)
                &&& match self.issuer_rec(self.credentials@[id as int].issuer) {
                    Some(rec) => rep.issuer_name == rec.name && rep.issuer_active == rec.active,
                    None => rep.issuer_name@ == "Unknown"@ && !rep.issuer_active,
                }
            },
    {
        if id >= self.credentials.len() as u64 {
            return Err(Error::NotFound);
        }
        let cred = self.credentials[id as usize].clone();
        let issuer_name: String;
        let issuer_active: bool;
        let issuer_known: bool;
        match assoc_find(&self.issuers, cred.issuer) {
            Some(j) => {
                proof {
                    lemma_assoc_at(self.issuers@, j as int);
                }
                issuer_name = self.issuers[j].1.name.clone();
                issuer_active = self.issuers[j].1.active;
                issuer_known = true;
            },
            None => {
                proof {
                    lemma_assoc_none(self.issuers@, cred.issuer);
                }
                issuer_name = String::from_str("Unknown");
                issuer_active = false;
                issuer_known = false;
            },
        }
        let status = if cred.revoked {
            VerifyStatus::Revoked
        } else if cred.expires_at != 0 && now > cred.expires_at {
            VerifyStatus::Expired
        } else if issuer_known && !issuer_active {
            VerifyStatus::IssuerInactive
        } else {
            VerifyStatus::Valid
        };
        Ok(VerifyReport { status, credential: cred, issuer_name, issuer_active })
    }

    /// The cheap validity check: `true` exactly when the credential
    /// exists, is not revoked, and has not passed a non-zero expiry.
    /// Lenient read: an unknown identifier yields `false`, and — unlike
    /// `verify` — an inactive issuer does not make this `false`.
    pub fn is_valid(&self, id: CredId, now: Timestamp) -> (r: bool)
        ensures
            r == self.spec_is_valid(id, now),
    {
        if id < self.credentials.len() as u64 {
            let c = &self.credentials[id as usize];
            !c.revoked && !(c.expires_at != 0 && now > c.expires_at)
        } else {
            false
        }
    }

    /// Issues one credential per holder, in input order, all with the
    /// same type, title, expiry and metadata, and returns the new
    /// identifiers in the same order. More than [`BATCH_LIMIT`] holders
    /// is refused with `BatchLimitExceeded`; a refused call — for the
    /// limit or for issuance rights — creates zero credentials.
    pub fn batch_issue(
        &mut self,
        caller: Identity,
        now: Timestamp,
        holders: Vec<Identity>,
        cred_type: String,
        title: String,
        expires_at: Timestamp,
        metadata_hash: String,
    ) -> (r: Result<Vec<CredId>, Error>)
        requires
            old(self).wf(),
        ensures
            final(self).wf(),
            r is Err ==> *final(self) == *old(self),
            r is Err <==> (holders@.len() > BATCH_LIMIT || !old(self).can_issue(caller)),
            holders@.len() > BATCH_LIMIT ==> r == Err::<Vec<CredId>, Error>(
                Error::BatchLimitExceeded,
            ),
            holders@.len() <= BATCH_LIMIT && !old(self).can_issue(caller) ==> r == Err::<
                Vec<CredId>,
                Error,
            >(Error::NotIssuer),
            r matches Ok(ids) ==> {
                &&& ids@.len() == holders@.len()
                &&& forall|j: int|
                    0 <= j < ids@.len() ==> ids@[j] == old(self).cred_count() + j
                &&& final(self).cred_count() == old(self).cred_count() + holders@.len()
                &&& forall|i: int|
                    0 <= i < old(self).cred_count() ==> final(self).credentials@[i] == old(
                        self,
                    ).credentials@[i]
                &&& forall|i: int|
                    #![trigger final(self).credentials@[i]]
                    old(self).cred_count() <= i < final(self).cred_count() ==> ({
                        let c = final(self).credentials@[i];
                        &&& c.issuer == caller
                        &&& c.holder == holders@[i - old(self).cred_count()]
                        &&& c.cred_type == cred_type
                        &&& c.title == title
                        &&& c.institution@ == old(self).institution_for(caller)
                        &&& c.issued_at == now
                        &&& c.expires_at == expires_at
                        &&& !c.revoked
                        &&& c.metadata_hash == metadata_hash
                        &&& c.schema_version == old(self).schema_version
                    })
                &&& forall|i: int|
                    0 <= i < old(self).cred_count() ==> final(self).revocation_at(i) == old(
                        self,
                    ).revocation_at(i)
                &&& forall|i: int|
                    old(self).cred_count() <= i < final(self).cred_count()
                        ==> final(self).revocation_at(i) is None
                &&& final(self).issuers@ == old(self).issuers@
                &&& final(self).owner == old(self).owner
                &&& final(self).schema_version == old(self).schema_version
                &&& final(self).allow_self_issuance == old(self).allow_self_issuance
            },
    {
        if holders.len() > BATCH_LIMIT {
            return Err(Error::BatchLimitExceeded);
        }
        match assoc_find(&self.issuers, caller) {
            Some(i) => {
                proof {
                    lemma_assoc_at(self.issuers@, i as int);
                }
                if !self.issuers[i].1.active {
                    return Err(Error::NotIssuer);
                }
            },
            None => {
                proof {
                    lemma_assoc_none(self.issuers@, caller);
                }
                if !self.allow_self_issuance {
                    return Err(Error::NotIssuer);
                }
            },
        }
        let ghost pre = *self;
        let mut ids: Vec<u64> = Vec::new();
        let mut k: usize = 0;
        while k < holders.len()
            invariant
                self.wf(),
                k <= holders@.len(),
                self.can_issue(caller),
                self.issuers@ == pre.issuers@,
                self.owner == pre.owner,
                self.schema_version == pre.schema_version,
                self.allow_self_issuance == pre.allow_self_issuance,
                self.cred_count() == pre.cred_count() + k,
                ids@.len() == k,
                forall|j: int| 0 <= j < k ==> ids@[j] == pre.cred_count() + j,
                forall|i: int|
                    0 <= i < pre.cred_count() ==> self.credentials@[i] == pre.credentials@[i],
                forall|i: int|
                    0 <= i < pre.cred_count() ==> self.revocation_at(i) == pre.revocation_at(i),
                forall|i: int|
                    #![trigger self.credentials@[i]]
                    pre.cred_count() <= i < self.cred_count() ==> ({
                        let c = self.credentials@[i];
                        &&& c.issuer == caller
                        &&& c.holder == holders@[i - pre.cred_count()]
                        &&& c.cred_type == cred_type
                        &&& c.title == title
                        &&& c.institution@ == pre.institution_for(caller)
                        &&& c.issued_at == now
                        &&& c.expires_at == expires_at
                        &&& !c.revoked
                        &&& c.metadata_hash == metadata_hash
                        &&& c.schema_version == pre.schema_version
                    }),
                forall|i: int|
                    pre.cred_count() <= i < self.cred_count() ==> self.revocation_at(i) is None,
            decreases holders@.len() - k,
        {
            let ct = cred_type.clone();
            let tl = title.clone();
            let mh = metadata_hash.clone();
            let res = self.issue(caller, now, holders[k], ct, tl, expires_at, mh);
            match res {
                Ok(idv) => {
                    ids.push(idv);
                },
                Err(_) => {
                    proof {
                        assert(false);
                    }
                    return Err(Error::NotIssuer);
                },
            }
            k = k + 1;
        }
        Ok(ids)
    }
}

} // verus!
