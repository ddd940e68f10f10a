//! Error kinds for the pair engine.

use vstd::prelude::*;

verus! {

/// Typed failure returned by every pair-engine function. Economic rejections
/// (slippage, price impact), structural faults (overflow) and terminal
/// conditions are distinct variants so a caller can match exhaustively.
#[derive(Copy, Clone, Debug, Eq, PartialEq, PartialOrd, Ord)]
pub enum Error {
    AlreadyInitialized,
    NotInitialized,
    InvalidTokenPair,
    InsufficientLiquidityMinted,
    InsufficientLiquidity,
    InsufficientLPBalance,
    InsufficientToken0Amount,
    InsufficientToken1Amount,
    InsufficientInputAmount,
    InsufficientOutputAmount,
    InsufficientReserve,
    SlippageExceeded,
    PriceImpactTooHigh,
    InvalidToken,
    InvalidAmount,
    KInvariantViolated,
    Reentrancy,
    ContractPaused,
    Unauthorized,
    Overflow,
    Underflow,
    DivisionByZero,
    InvalidFlashLoan,
    FlashLoanNotRepaid,
    OracleWindowUnavailable,
}

} // verus!
