//! Price-feed data and the market-cap arithmetic built on it. Querying the
//! feed contract is the dispatch layer's job; the engine receives the rate
//! and the timestamps as plain values.

use vstd::prelude::*;
use super::errors::Error;

verus! {

/// How old a price may be before it is rejected as stale, in seconds.
pub const MAX_PRICE_AGE: u64 = 3600;

/// A quoted price: USD rate with 18 decimals and the update times of both
/// legs of the pair.
#[derive(Copy, Clone, Debug, Eq, PartialEq)]
pub struct PriceData {
    /// Price in USD with 18 decimals.
    pub rate: u128,
    /// Timestamp of the last update for the base asset.
    pub last_updated_base: u64,
    /// Timestamp of the last update for the quote asset.
    pub last_updated_quote: u64,
}

/// Accept a price only while it is younger than the staleness bound.
pub fn validate_price_freshness(price: &PriceData, now: u64) -> (r: Result<u128, Error>)
    requires
        price.last_updated_base <= now,
    ensures
        now - price.last_updated_base > 3600 ==> r == Err::<u128, Error>(Error::OraclePriceStale),
        now - price.last_updated_base <= 3600 ==> r == Ok::<u128, Error>(price.rate),
{
    if now - price.last_updated_base > MAX_PRICE_AGE {
        return Err(Error::OraclePriceStale);
    }
    Ok(price.rate)
}

/// Market capitalization in USD with 18 decimals: the base-asset amount
/// (seven decimals) times the USD rate, normalized back by the base asset's
/// decimals.
pub fn calculate_market_cap_usd(xlm_amount: i128, xlm_price: u128) -> (r: Result<u128, Error>)
    ensures
        xlm_amount < 0 ==> r == Err::<u128, Error>(Error::InvalidAmount),
        xlm_amount >= 0 && xlm_amount * xlm_price > u128::MAX ==> r == Err::<u128, Error>(
            Error::MathOverflow,
        ),
        xlm_amount >= 0 && xlm_amount * xlm_price <= u128::MAX ==> r == Ok::<u128, Error>(
            ((xlm_amount * xlm_price) / 10_000_000) as u128,
        ),
{
    if xlm_amount < 0 {
        return Err(Error::InvalidAmount);
    }

    let xlm_u128 = xlm_amount as u128;

    let product = match xlm_u128.checked_mul(xlm_price) {
        Some(v) => v,
        None => {
            return Err(Error::MathOverflow);
        },
    };
    proof {
        vstd::arithmetic::div_mod::lemma_div_pos_is_pos(product as int, 10_000_000);
        vstd::arithmetic::div_mod::lemma_div_nonincreasing(product as int, 10_000_000);
    }
    match product.checked_div(10_000_000) {
        Some(v) => Ok(v),
        None => Err(Error::MathOverflow),
    }
}

/// Whether the base asset raised during the curve phase values the token at
/// or above the required minimum market capitalization.
pub fn validate_graduation_market_cap(
    xlm_raised: i128,
    xlm_price: u128,
    min_market_cap_usd: u128,
) -> (r: Result<bool, Error>)
    ensures
        xlm_raised < 0 ==> r == Err::<bool, Error>(Error::InvalidAmount),
        xlm_raised >= 0 && xlm_raised * xlm_price > u128::MAX ==> r == Err::<bool, Error>(
            Error::MathOverflow,
        ),
        xlm_raised >= 0 && xlm_raised * xlm_price <= u128::MAX ==> r == Ok::<bool, Error>(
            (xlm_raised * xlm_price) / 10_000_000 >= min_market_cap_usd,
        ),
{
    let market_cap = match calculate_market_cap_usd(xlm_raised, xlm_price) {
        Ok(v) => v,
        Err(e) => {
            return Err(e);
        },
    };
    Ok(market_cap >= min_market_cap_usd)
}

} // verus!
