//! Fee configuration and the trading-fee calculation. Collecting fees and
//! paying the treasury belongs to the dispatch layer.

use vstd::prelude::*;
use super::errors::Error;
use super::math;
use super::math::trunc_div;

verus! {

/// Fee parameters of the launchpad. The treasury that receives the fees is
/// an address the dispatch layer holds alongside these numbers.
#[derive(Copy, Clone, Debug, Eq, PartialEq)]
pub struct FeeConfig {
    /// Fee for creating a new token, in base-asset units.
    pub creation_fee: i128,
    /// Trading fee in basis points.
    pub trading_fee_bps: i128,
}

/// Storage key under which the fee configuration lives.
#[derive(Copy, Clone, Debug, Eq, PartialEq)]
pub enum FeeKey {
    Config,
}

impl FeeConfig {
    /// Accept a configuration: the creation fee must not be negative and
    /// the trading fee must stay within 100%.
    pub fn new(creation_fee: i128, trading_fee_bps: i128) -> (r: Result<FeeConfig, Error>)
        ensures
            creation_fee < 0 ==> r == Err::<FeeConfig, Error>(Error::InvalidFeeConfiguration),
            creation_fee >= 0 && !(0 <= trading_fee_bps <= 10000) ==> r == Err::<FeeConfig, Error>(
                Error::FeeTooHigh,
            ),
            creation_fee >= 0 && 0 <= trading_fee_bps <= 10000 ==> r == Ok::<FeeConfig, Error>(
                FeeConfig { creation_fee, trading_fee_bps },
            ),
    {
        if creation_fee < 0 {
            return Err(Error::InvalidFeeConfiguration);
        }
        if trading_fee_bps < 0 || trading_fee_bps > 10_000 {
            return Err(Error::FeeTooHigh);
        }
        Ok(FeeConfig { creation_fee, trading_fee_bps })
    }
}

/// The fee a trade of `amount` pays at `fee_bps` basis points.
pub fn calculate_trading_fee(amount: i128, fee_bps: i128) -> (r: Result<i128, Error>)
    ensures
        !(i128::MIN <= amount * fee_bps <= i128::MAX) ==> r == Err::<i128, Error>(Error::Overflow),
        i128::MIN <= amount * fee_bps <= i128::MAX ==> r == Ok::<i128, Error>(
            trunc_div(amount * fee_bps, 10000) as i128,
        ),
{
    math::apply_bps(amount, fee_bps)
}

/// Split a gross amount into the net amount and the fee withheld.
pub fn apply_trading_fee(gross_amount: i128, fee_bps: i128) -> (r: Result<(i128, i128), Error>)
    requires
        gross_amount >= 0,
        0 <= fee_bps <= 10000,
    ensures
        fee_bps == 0 ==> r == Ok::<(i128, i128), Error>((gross_amount, 0)),
        fee_bps > 0 && gross_amount * fee_bps > i128::MAX ==> r == Err::<(i128, i128), Error>(
            Error::Overflow,
        ),
        fee_bps > 0 && gross_amount * fee_bps <= i128::MAX ==> ({
            let fee = gross_amount * fee_bps / 10000;
            r == Ok::<(i128, i128), Error>(((gross_amount - fee) as i128, fee as i128))
        }),
{
    if fee_bps == 0 {
        return Ok((gross_amount, 0));
    }

    proof {
        assert(gross_amount * fee_bps >= 0) by (nonlinear_arith)
            requires
                gross_amount >= 0,
                fee_bps >= 0,
        ;
    }
    let fee = match calculate_trading_fee(gross_amount, fee_bps) {
        Ok(v) => v,
        Err(e) => {
            return Err(e);
        },
    };
    proof {
        let g = gross_amount as int;
        let f = fee_bps as int;
        assert(trunc_div(g * f, 10000) == g * f / 10000);
        assert(g * f / 10000 <= g) by {
            assert(g * f <= g * 10000) by (nonlinear_arith)
                requires
                    g >= 0,
                    0 <= f <= 10000,
            ;
            vstd::arithmetic::div_mod::lemma_div_is_ordered(g * f, g * 10000, 10000);
            vstd::arithmetic::div_mod::lemma_div_multiples_vanish(g, 10000);
            assert(g * 10000 == 10000 * g) by (nonlinear_arith);
        }
        vstd::arithmetic::div_mod::lemma_div_pos_is_pos(g * f, 10000);
    }
    let net = match math::safe_sub(gross_amount, fee) {
        Ok(v) => v,
        Err(e) => {
            return Err(e);
        },
    };

    Ok((net, fee))
}

} // verus!
