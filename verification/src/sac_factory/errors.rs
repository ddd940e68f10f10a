//! Error kinds for the launchpad engine.

use vstd::prelude::*;

verus! {

/// Typed failure returned by every launchpad-engine function.
#[derive(Copy, Clone, Debug, Eq, PartialEq)]
pub enum Error {
    AlreadyInitialized,
    NotInitialized,
    Unauthorized,
    NotAdmin,
    InvalidName,
    InvalidSymbol,
    InvalidAmount,
    TokenNotFound,
    AlreadyGraduated,
    InsufficientLiquidity,
    SlippageExceeded,
    InsufficientBalance,
    Overflow,
    Underflow,
    DivisionByZero,
    CannotRevokeOwnOwnership,
    RoleNotFound,
    ContractPaused,
    ContractNotPaused,
    InvalidState,
    InsufficientFee,
    FeeTooHigh,
    InvalidFeeConfiguration,
    DeploymentFailed,
    TokenAlreadyExists,
    InvalidWasmHash,
    AmmWasmNotSet,
    TransactionExpired,
    TransferFailed,
    AmmInitializationFailed,
    InsufficientLiquidityForGraduation,
    OracleNotConfigured,
    OracleCallFailed,
    OraclePriceFeedNotFound,
    OraclePriceStale,
    MathOverflow,
}

} // verus!
