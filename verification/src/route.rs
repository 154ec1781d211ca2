//! The read side: keyed lookups against the persisted tables.  The
//! HTTP plumbing around them is a consumer of the library; the lookup
//! rules live here, and an out-of-range request yields nothing rather
//! than a crash, so the façade can answer "not found" even while a
//! refresh has left a table transiently empty.

use vstd::prelude::*;

pub mod crypto_listing;
pub mod crypto_map;

verus! {

/// Why the read side fails to come up.
#[derive(Clone, Copy, PartialEq, Eq, Structural, Debug)]
pub enum CfxError {
    /// The configuration is missing or breaks a rule.
    CfgError(crate::config::ConfigError),
    /// Binding or serving the listener failed.
    IoError,
}

} // verus!
