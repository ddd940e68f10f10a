//! Input validation for pair operations: size floors for trades and
//! deposits, reserve checks, and the K-invariant check that every swap must
//! pass.

use vstd::prelude::*;
use super::errors::Error;

verus! {

/// Liquidity withheld permanently on the first deposit, so the pool's LP
/// supply can never return to zero.
pub const MINIMUM_LIQUIDITY: i128 = 1000;

/// Smallest accepted swap amount.
pub const MIN_SWAP_AMOUNT: i128 = 100;

/// Smallest accepted liquidity deposit.
pub const MIN_LIQUIDITY_AMOUNT: i128 = 1000;

/// Largest tolerated price impact, in basis points.
pub const MAX_PRICE_IMPACT_BPS: i128 = 500;

/// Check a swap amount against the floor.
pub fn validate_swap_amount(amount: i128) -> (r: Result<(), Error>)
    ensures
        r == Ok::<(), Error>(()) <==> amount >= 100,
        amount < 100 ==> r == Err::<(), Error>(Error::InsufficientInputAmount),
{
    if amount < MIN_SWAP_AMOUNT {
        return Err(Error::InsufficientInputAmount);
    }
    Ok(())
}

/// Check a liquidity deposit against the floor.
pub fn validate_liquidity_amount(amount: i128) -> (r: Result<(), Error>)
    ensures
        r == Ok::<(), Error>(()) <==> amount >= 1000,
        amount < 1000 ==> r == Err::<(), Error>(Error::InsufficientLiquidity),
{
    if amount < MIN_LIQUIDITY_AMOUNT {
        return Err(Error::InsufficientLiquidity);
    }
    Ok(())
}

/// Check that both reserves are positive.
pub fn validate_reserves(reserve_0: i128, reserve_1: i128) -> (r: Result<(), Error>)
    ensures
        r == Ok::<(), Error>(()) <==> (reserve_0 > 0 && reserve_1 > 0),
        reserve_0 <= 0 || reserve_1 <= 0 ==> r == Err::<(), Error>(Error::InsufficientLiquidity),
{
    if reserve_0 <= 0 || reserve_1 <= 0 {
        return Err(Error::InsufficientLiquidity);
    }
    Ok(())
}

/// Check the K invariant: the product of the reserves must strictly grow
/// across a trade, because the fee stays in the pool. Equality or a
/// decrease is a hard failure that must abort the whole operation.
pub fn validate_k_invariant(
    reserve_0_before: i128,
    reserve_1_before: i128,
    reserve_0_after: i128,
    reserve_1_after: i128,
) -> (r: Result<(), Error>)
    ensures
        r == Ok::<(), Error>(()) <==> (i128::MIN <= reserve_0_before * reserve_1_before
            <= i128::MAX && i128::MIN <= reserve_0_after * reserve_1_after <= i128::MAX
            && reserve_0_after * reserve_1_after > reserve_0_before * reserve_1_before),
        !(i128::MIN <= reserve_0_before * reserve_1_before <= i128::MAX) || !(i128::MIN
            <= reserve_0_after * reserve_1_after <= i128::MAX) ==> r == Err::<(), Error>(
            Error::Overflow,
        ),
        (i128::MIN <= reserve_0_before * reserve_1_before <= i128::MAX) && (i128::MIN
            <= reserve_0_after * reserve_1_after <= i128::MAX) && reserve_0_after * reserve_1_after
            <= reserve_0_before * reserve_1_before ==> r == Err::<(), Error>(
            Error::KInvariantViolated,
        ),
{
    let k_before = match reserve_0_before.checked_mul(reserve_1_before) {
        Some(v) => v,
        None => {
            return Err(Error::Overflow);
        },
    };
    let k_after = match reserve_0_after.checked_mul(reserve_1_after) {
        Some(v) => v,
        None => {
            return Err(Error::Overflow);
        },
    };

    if k_after <= k_before {
        return Err(Error::KInvariantViolated);
    }

    Ok(())
}

} // verus!
