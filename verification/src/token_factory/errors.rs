//! Error kinds for the token factory engine.

use vstd::prelude::*;

verus! {

/// Typed failure returned by every factory-engine function.
#[derive(Copy, Clone, Debug, Eq, PartialEq, PartialOrd, Ord)]
pub enum Error {
    AlreadyInitialized,
    NotInitialized,
    Unauthorized,
    NotAdmin,
    InvalidNameLength,
    InvalidSymbolLength,
    InvalidSupply,
    InvalidDecimals,
    InvalidMetadataUri,
    AmountTooSmall,
    AmountTooLarge,
    TokenNotFound,
    AlreadyGraduated,
    InsufficientReserve,
    InsufficientBalance,
    SlippageExceeded,
    PriceImpactTooHigh,
    RateLimitExceeded,
    TooManyTokens,
    CreationCooldown,
    Overflow,
    Underflow,
    DivisionByZero,
    ContractPaused,
    Blacklisted,
    InvalidCaller,
}

} // verus!
