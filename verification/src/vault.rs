//! The custody vault record. Its holding is the occupying account's actual
//! funds, not a stored field, so the record itself carries only the
//! recorded authority and the locked flag.

use vstd::prelude::*;

use crate::Identity;

verus! {

/// A vault: who may withdraw, and whether any movement is forbidden.
pub struct Vault {
    pub vault_authority: Identity,
    pub locked: bool,
}

} // verus!
