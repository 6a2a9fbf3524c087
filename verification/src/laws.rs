//! Registry-wide laws, stated as public proof functions over the spec
//! functions that the operations' contracts use.

use vstd::prelude::*;

use crate::assoc::index_ids;
use crate::registry::CasperCreds;
use crate::registry::entry_ok;
use crate::registry::key_of;
use crate::registry::revoke_outcome;
use crate::types::CredId;
use crate::types::Error;
use crate::types::Identity;
use crate::types::Timestamp;
use crate::types::VerifyStatus;

verus! {

/// The secondary indexes never diverge from the primary store: an
/// identifier is listed under a holder (or issuer) exactly when the
/// stored credential carries that holder (or issuer).
pub proof fn lemma_index_matches_store(r: CasperCreds, id: CredId, who: Identity)
    requires
        r.wf(),
    ensures
        r.holder_ids(who).contains(id) <==> (id < r.cred_count() && r.credentials@[
            id as int
        ].holder == who),
        r.issuer_ids(who).contains(id) <==> (id < r.cred_count() && r.credentials@[
            id as int
        ].issuer == who),
{
    if r.holder_ids(who).contains(id) {
        let l = index_ids(r.holder_index@, who);
        assert(entry_ok(r.credentials@, true, who, l));
        let j = choose|j: int| 0 <= j < l.len() && l[j] == id;
        assert(l[j] < r.credentials@.len() && key_of(r.credentials@[l[j] as int], true) == who);
    }
    if id < r.cred_count() && r.credentials@[id as int].holder == who {
        assert(index_ids(r.holder_index@, key_of(r.credentials@[id as int], true)).contains(
            (id as int) as u64,
        ));
    }
    if r.issuer_ids(who).contains(id) {
        let l = index_ids(r.issuer_index@, who);
        assert(entry_ok(r.credentials@, false, who, l));
        let j = choose|j: int| 0 <= j < l.len() && l[j] == id;
        assert(l[j] < r.credentials@.len() && key_of(r.credentials@[l[j] as int], false) == who);
    }
    if id < r.cred_count() && r.credentials@[id as int].issuer == who {
        assert(index_ids(r.issuer_index@, key_of(r.credentials@[id as int], false)).contains(
            (id as int) as u64,
        ));
    }
}

/// A revocation record exists exactly for the revoked credentials, and
/// was written by the credential's own issuer.
pub proof fn lemma_revocation_record_iff_revoked(r: CasperCreds, id: CredId)
    requires
        r.wf(),
        id < r.cred_count(),
    ensures
        r.revocation_at(id as int) is Some <==> r.credentials@[id as int].revoked,
        r.revocation_at(id as int) matches Some(rr) ==> rr.revoked_by == r.credentials@[
            id as int
        ].issuer,
{
}

/// Revocation is terminal: against a state in which the credential is
/// already revoked, `revoke` fails whoever calls it, and reports
/// `AlreadyRevoked` to the credential's own issuer. Together with
/// `revoke`'s contract (a failing call leaves the registry untouched)
/// this is the idempotent-failure law: retrying changes nothing.
pub proof fn lemma_revoke_already_revoked(pre: CasperCreds, caller: Identity, id: CredId)
    requires
        id < pre.cred_count(),
        pre.credentials@[id as int].revoked,
    ensures
        revoke_outcome(pre, caller, id) is Err,
        caller == pre.credentials@[id as int].issuer ==> revoke_outcome(pre, caller, id) == Err::<
            (),
            Error,
        >(Error::AlreadyRevoked),
{
}

/// Revocation rights belong to the original issuer alone: any other
/// caller — the registry owner included — is refused with
/// `NotCredIssuer`.
pub proof fn lemma_revoke_requires_original_issuer(pre: CasperCreds, caller: Identity, id: CredId)
    requires
        id < pre.cred_count(),
        caller != pre.credentials@[id as int].issuer,
    ensures
        revoke_outcome(pre, caller, id) == Err::<(), Error>(Error::NotCredIssuer),
{
}

/// Expiry is purely time-driven: with no mutation at all, a credential
/// that is `Valid` at one instant and carries a non-zero expiry is
/// `Expired` at every instant past that expiry, and the cheap validity
/// check flips with it.
pub proof fn lemma_expiry_is_time_driven(r: CasperCreds, id: CredId, t1: Timestamp, t2: Timestamp)
    requires
        r.wf(),
        id < r.cred_count(),
        r.credentials@[id as int].expires_at != 0,
        r.status_of(id as int, t1) == VerifyStatus::Valid,
        t2 > r.credentials@[id as int].expires_at,
    ensures
        r.status_of(id as int, t2) == VerifyStatus::Expired,
        r.spec_is_valid(id, t1),
        !r.spec_is_valid(id, t2),
{
}

} // verus!
