//! A capability-derivation and custodial-exchange protocol: identities derived
//! from public seeds, buffers and vaults that only such an identity may sign
//! for, and an exchange of one asset for another at a rate read from a buffer.

pub mod booth;
pub mod derivation;
pub mod codec;
pub mod echo;
pub mod error;
pub mod host;
pub mod ledger;
