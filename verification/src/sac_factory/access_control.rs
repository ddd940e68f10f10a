//! Roles of the launchpad's permission system. Granting, revoking and
//! checking roles is storage-bound work that belongs to the dispatch layer;
//! the engine only names the roles.

use vstd::prelude::*;

verus! {

/// Available roles.
#[derive(Copy, Clone, Debug, Eq, PartialEq)]
pub enum Role {
    /// Can do everything.
    Owner,
    /// Can pause and unpause the contract.
    PauseAdmin,
    /// Can modify the treasury address.
    TreasuryAdmin,
    /// Can adjust fee parameters.
    FeeAdmin,
    /// Can trigger an emergency pause, but never unpause.
    EmergencyPauser,
}

} // verus!
