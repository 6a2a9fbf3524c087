//! A verified credential issuance-and-verification registry.
//!
//! The registry is a deterministic state machine: authorized issuers are
//! registered by the owner, issuers create and revoke credentials for
//! holders, and anyone may ask whether a credential is currently valid.
//! The authenticated caller and the current logical time are injected
//! values, passed into each operation by the surrounding host.

pub mod assoc;
pub mod types;
pub mod registry;
pub mod laws;
pub mod scripts;
