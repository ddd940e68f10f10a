//! Storage key types and the lifecycle status of a launched token. The
//! dispatch layer owns the actual storage.

use vstd::prelude::*;

verus! {

/// Keys of the small, frequently read configuration entries.
#[derive(Copy, Clone, Debug, Eq, PartialEq)]
pub enum InstanceKey {
    Admin,
    Treasury,
    TokenCount,
    AmmWasmHash,
    OracleAddress,
    MinMarketCapUsd,
}

/// Lifecycle status of a launched token.
#[derive(Copy, Clone, Debug, Eq, PartialEq)]
pub enum TokenStatus {
    /// Still priced by the bonding curve.
    Bonding,
    /// Moved to a pair; curve trading is permanently disabled.
    Graduated,
}

} // verus!
