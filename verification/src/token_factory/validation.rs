//! Input validation for the token factory: bounds on token parameters,
//! trade sizes and the price impact a curve trade may cause.

use vstd::prelude::*;
use super::errors::Error;

verus! {

pub const MIN_NAME_LENGTH: u32 = 3;

pub const MAX_NAME_LENGTH: u32 = 32;

pub const MIN_SYMBOL_LENGTH: u32 = 2;

pub const MAX_SYMBOL_LENGTH: u32 = 12;

/// Smallest accepted supply: one tenth of a token at seven decimals.
pub const MIN_SUPPLY: i128 = 1_000_000;

/// Largest accepted supply.
pub const MAX_SUPPLY: i128 = 1_000_000_000_000_000;

pub const MIN_DECIMALS: u32 = 0;

pub const MAX_DECIMALS: u32 = 18;

pub const MAX_METADATA_URI_LENGTH: u32 = 256;

/// Fee for creating a token, in base-asset units.
pub const CREATION_FEE: i128 = 100_000;

/// Smallest accepted buy.
pub const MIN_BUY_AMOUNT: i128 = 1_000_000;

/// Smallest accepted sell.
pub const MIN_SELL_AMOUNT: i128 = 100_000;

/// Most tokens one creator may launch.
pub const MAX_TOKENS_PER_USER: u32 = 10;

/// Seconds a creator must wait between launches.
pub const TOKEN_CREATION_COOLDOWN: u64 = 3600;

/// Largest tolerated price impact, in basis points.
pub const MAX_PRICE_IMPACT_BPS: i128 = 500;

/// Base-asset total at which a token graduates to a pair.
pub const GRADUATION_THRESHOLD: i128 = 1_000_000_000_000;

/// Smallest base-asset total a graduating token must bring to the pair.
pub const MIN_GRADUATION_LIQUIDITY: i128 = 500_000_000_000;

/// Check a token name length against the bounds.
pub fn validate_name_length(len: u32) -> (r: Result<(), Error>)
    ensures
        r == Ok::<(), Error>(()) <==> 3 <= len <= 32,
        !(3 <= len <= 32) ==> r == Err::<(), Error>(Error::InvalidNameLength),
{
    if len < MIN_NAME_LENGTH {
        return Err(Error::InvalidNameLength);
    }
    if len > MAX_NAME_LENGTH {
        return Err(Error::InvalidNameLength);
    }
    Ok(())
}

/// Check a token symbol length against the bounds.
pub fn validate_symbol_length(len: u32) -> (r: Result<(), Error>)
    ensures
        r == Ok::<(), Error>(()) <==> 2 <= len <= 12,
        !(2 <= len <= 12) ==> r == Err::<(), Error>(Error::InvalidSymbolLength),
{
    if len < MIN_SYMBOL_LENGTH {
        return Err(Error::InvalidSymbolLength);
    }
    if len > MAX_SYMBOL_LENGTH {
        return Err(Error::InvalidSymbolLength);
    }
    Ok(())
}

/// Check an initial supply against the bounds.
pub fn validate_supply(supply: i128) -> (r: Result<(), Error>)
    ensures
        r == Ok::<(), Error>(()) <==> 1_000_000 <= supply <= 1_000_000_000_000_000,
        !(1_000_000 <= supply <= 1_000_000_000_000_000) ==> r == Err::<(), Error>(
            Error::InvalidSupply,
        ),
{
    if supply < MIN_SUPPLY {
        return Err(Error::InvalidSupply);
    }
    if supply > MAX_SUPPLY {
        return Err(Error::InvalidSupply);
    }
    Ok(())
}

/// Check a decimals value against the bounds.
pub fn validate_decimals(decimals: u32) -> (r: Result<(), Error>)
    ensures
        r == Ok::<(), Error>(()) <==> decimals <= 18,
        decimals > 18 ==> r == Err::<(), Error>(Error::InvalidDecimals),
{
    if decimals < MIN_DECIMALS || decimals > MAX_DECIMALS {
        return Err(Error::InvalidDecimals);
    }
    Ok(())
}

/// Check a metadata URI length against the bound.
pub fn validate_metadata_uri_length(len: u32) -> (r: Result<(), Error>)
    ensures
        r == Ok::<(), Error>(()) <==> len <= 256,
        len > 256 ==> r == Err::<(), Error>(Error::InvalidMetadataUri),
{
    if len > MAX_METADATA_URI_LENGTH {
        return Err(Error::InvalidMetadataUri);
    }
    Ok(())
}

/// Check a buy amount against the floor.
pub fn validate_buy_amount(amount: i128) -> (r: Result<(), Error>)
    ensures
        r == Ok::<(), Error>(()) <==> amount >= 1_000_000,
        amount < 1_000_000 ==> r == Err::<(), Error>(Error::AmountTooSmall),
{
    if amount < MIN_BUY_AMOUNT {
        return Err(Error::AmountTooSmall);
    }
    Ok(())
}

/// Check a sell amount against the floor.
pub fn validate_sell_amount(amount: i128) -> (r: Result<(), Error>)
    ensures
        r == Ok::<(), Error>(()) <==> amount >= 100_000,
        amount < 100_000 ==> r == Err::<(), Error>(Error::AmountTooSmall),
{
    if amount < MIN_SELL_AMOUNT {
        return Err(Error::AmountTooSmall);
    }
    Ok(())
}

/// The price impact of a trade, in basis points: the absolute price change
/// as a share of the old price.
pub open spec fn price_impact_bps_value(old_price: int, new_price: int) -> int {
    let change = if new_price > old_price {
        new_price - old_price
    } else {
        old_price - new_price
    };
    change * 10000 / old_price
}

/// Check the price impact of a trade against the ceiling; the first trade,
/// from a zero price, always passes.
pub fn validate_price_impact(old_price: i128, new_price: i128) -> (r: Result<(), Error>)
    requires
        old_price >= 0,
        new_price >= 0,
        (if new_price > old_price {
            new_price - old_price
        } else {
            old_price - new_price
        }) * 10000 <= i128::MAX,
    ensures
        old_price == 0 ==> r == Ok::<(), Error>(()),
        old_price > 0 ==> (r == Ok::<(), Error>(()) <==> price_impact_bps_value(
            old_price as int,
            new_price as int,
        ) <= 500),
        old_price > 0 && price_impact_bps_value(old_price as int, new_price as int) > 500 ==> r
            == Err::<(), Error>(Error::PriceImpactTooHigh),
{
    if old_price == 0 {
        return Ok(());
    }

    let price_change = if new_price > old_price {
        new_price - old_price
    } else {
        old_price - new_price
    };

    proof {
        vstd::arithmetic::div_mod::lemma_div_pos_is_pos(
            price_change as int * 10000,
            old_price as int,
        );
        vstd::arithmetic::div_mod::lemma_div_nonincreasing(
            price_change as int * 10000,
            old_price as int,
        );
        assert(price_change as int * 10000 >= 0) by (nonlinear_arith)
            requires
                price_change >= 0,
        ;
    }
    let impact_bps = (price_change * 10_000) / old_price;

    if impact_bps > MAX_PRICE_IMPACT_BPS {
        return Err(Error::PriceImpactTooHigh);
    }

    Ok(())
}

} // verus!
