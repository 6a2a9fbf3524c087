//! Host-facing entry points: the deployment script that creates a
//! registry instance, and the ready-made scenarios a driver can offer.
//!
//! The host environment (argument parsing, gas, transport) stays outside
//! the library; each script here takes the injected caller identity and
//! plain argument values and performs the registry operation itself.

use vstd::prelude::*;

use crate::assoc::assoc_has;
use crate::registry::CasperCreds;
use crate::types::Error;
use crate::types::Identity;

verus! {

/// Deploys a fresh credential registry for the deploying caller.
pub struct CasperCredsDeployScript;

impl CasperCredsDeployScript {
    /// Creates the registry instance, with the deploying caller as its
    /// owner, exactly as [`CasperCreds::init`] does.
    pub fn deploy(&self, caller: Identity, allow_self_issuance: bool) -> (r: CasperCreds)
        ensures
            r.wf(),
            r.owner == caller,
            r.schema_version == 1,
            r.allow_self_issuance == allow_self_issuance,
            r.cred_count() == 0,
            forall|a: Identity| r.issuer_rec(a) is None,
    {
        CasperCreds::init(caller, allow_self_issuance)
    }
}

/// The scenario that registers a new credential issuer (owner only).
pub struct RegisterIssuerScenario;

impl RegisterIssuerScenario {
    /// Registers `issuer` under `name`, exactly as
    /// [`CasperCreds::register_issuer`] does for the given caller.
    pub fn run(
        &self,
        reg: &mut CasperCreds,
        caller: Identity,
        issuer: Identity,
        name: String,
    ) -> (r: Result<(), Error>)
        requires
            old(reg).wf(),
        ensures
            final(reg).wf(),
            r is Err ==> *final(reg) == *old(reg),
            r == (if caller != old(reg).owner {
                Err::<(), Error>(Error::NotOwner)
            } else if assoc_has(old(reg).issuers@, issuer) {
                Err::<(), Error>(Error::IssuerExists)
            } else {
                Ok::<(), Error>(())
            }),
            r is Ok ==> (final(reg).issuer_rec(issuer) matches Some(rec) && rec.name == name
                && rec.active),
    {
        reg.register_issuer(caller, issuer, name)
    }
}

/// The scenario that reads the total number of credentials issued.
pub struct TotalScenario;

impl TotalScenario {
    /// Reports the registry's total, exactly as [`CasperCreds::total`]
    /// does.
    pub fn run(&self, reg: &CasperCreds) -> (r: u64)
        ensures
            r == reg.cred_count(),
    {
        reg.total()
    }
}

} // verus!
