//! Contract lifecycle states and the checks trading functions make against
//! them. Reading and writing the stored state belongs to the dispatch
//! layer.

use vstd::prelude::*;
use super::errors::Error;

verus! {

/// Lifecycle states of the launchpad.
#[derive(Copy, Clone, Debug, Eq, PartialEq)]
pub enum ContractState {
    /// Not yet initialized.
    Uninitialized,
    /// Normal operation.
    Active,
    /// Paused: no new operations.
    Paused,
    /// Migrating to a new version.
    Migrating,
    /// Deprecated old version.
    Deprecated,
}

/// Storage key under which the lifecycle state lives.
#[derive(Copy, Clone, Debug, Eq, PartialEq)]
pub enum StateKey {
    State,
}

/// Accept only the `Active` state.
pub fn require_active(state: ContractState) -> (r: Result<(), Error>)
    ensures
        r == Ok::<(), Error>(()) <==> state == ContractState::Active,
        !(state == ContractState::Active) ==> r == Err::<(), Error>(Error::ContractPaused),
{
    match state {
        ContractState::Active => Ok(()),
        _ => Err(Error::ContractPaused),
    }
}

/// Accept every state but `Paused`.
pub fn require_not_paused(state: ContractState) -> (r: Result<(), Error>)
    ensures
        r == Ok::<(), Error>(()) <==> !(state == ContractState::Paused),
        state == ContractState::Paused ==> r == Err::<(), Error>(Error::ContractPaused),
{
    match state {
        ContractState::Paused => Err(Error::ContractPaused),
        _ => Ok(()),
    }
}

} // verus!
