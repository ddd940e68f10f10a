//! Trade transforms of the launchpad.
//!
//! Each function takes the token's bonding-curve snapshot and the trade
//! inputs and returns the new snapshot together with the settlement
//! amounts, or a typed error. Authorization, deadlines, transfers, storage
//! and events belong to the dispatch layer.

use vstd::prelude::*;
use vstd::arithmetic::div_mod::{lemma_div_nonincreasing, lemma_div_pos_is_pos};
use super::bonding_curve::{
    buy_tokens_value, saturating_price_value, sell_xlm_value, BondingCurve,
};
use super::errors::Error;
use super::fee_management;
use super::math;
use super::math::trunc_div;
use super::storage::TokenStatus;

verus! {

/// Base-asset total at which a token graduates from the curve to a pair.
pub const GRADUATION_THRESHOLD: i128 = 100_000_000_000;

/// Fee for launching a token, in base-asset units.
pub const CREATION_FEE: i128 = 100_000;

/// Total supply minted for a launched token.
pub const INITIAL_SUPPLY: i128 = 10_000_000_000_000_000;

/// Share of the supply sold through the bonding curve.
pub const BONDING_CURVE_SUPPLY: i128 = 8_000_000_000_000_000;

/// Everything a settled buy hands back to the dispatch layer.
#[derive(Copy, Clone, Debug, Eq, PartialEq)]
pub struct BuyOutcome {
    /// Curve state after the buy.
    pub curve: BondingCurve,
    /// Tokens the buyer receives, after the fee.
    pub tokens_net: i128,
    /// Tokens the curve released, before the fee.
    pub tokens_gross: i128,
    /// Tokens withheld as the trading fee.
    pub fee_amount: i128,
    /// Spot price before the trade.
    pub price_before: i128,
    /// Spot price after the trade.
    pub price_after: i128,
    /// Relative price change of the trade, in basis points.
    pub slippage_bps: i128,
    /// Base asset raised over the token's lifetime, after the trade.
    pub xlm_raised: i128,
    /// Market capitalization after the trade.
    pub market_cap: i128,
    /// Whether the trade pushed the token across the graduation threshold.
    pub status: TokenStatus,
}

/// Everything a settled sell hands back to the dispatch layer.
#[derive(Copy, Clone, Debug, Eq, PartialEq)]
pub struct SellOutcome {
    /// Curve state after the sell.
    pub curve: BondingCurve,
    /// Base asset the seller receives, after the fee.
    pub xlm_net: i128,
    /// Base asset the curve released, before the fee.
    pub xlm_gross: i128,
    /// Base asset withheld as the trading fee.
    pub fee_amount: i128,
    /// Base asset raised over the token's lifetime, after the trade.
    pub xlm_raised: i128,
    /// Market capitalization after the trade.
    pub market_cap: i128,
}

/// Marker for the launchpad engine; the operations are associated functions
/// over explicit snapshots.
pub struct SacFactory;

impl SacFactory {
    /// Validate the name and symbol lengths of a new token and seed its
    /// bonding curve.
    pub fn launch_token(name_len: u32, symbol_len: u32) -> (r: Result<BondingCurve, Error>)
        ensures
            name_len == 0 || name_len > 32 ==> r == Err::<BondingCurve, Error>(Error::InvalidName),
            1 <= name_len <= 32 && (symbol_len == 0 || symbol_len > 12) ==> r == Err::<
                BondingCurve,
                Error,
            >(Error::InvalidSymbol),
            1 <= name_len <= 32 && 1 <= symbol_len <= 12 ==> (r matches Ok(c) && c.well_formed()
                && c == (BondingCurve {
                total_supply: BONDING_CURVE_SUPPLY,
                tokens_sold: 0,
                tokens_remaining: BONDING_CURVE_SUPPLY,
                xlm_reserve: 10_000_000_000,
                k: (10_000_000_000 * BONDING_CURVE_SUPPLY) as i128,
            })),
    {
        if name_len == 0 || name_len > 32 {
            return Err(Error::InvalidName);
        }
        if symbol_len == 0 || symbol_len > 12 {
            return Err(Error::InvalidSymbol);
        }
        BondingCurve::new(BONDING_CURVE_SUPPLY)
    }

    /// Buy tokens from the curve: price the trade, withhold the trading
    /// fee, check the buyer's slippage bound, apply the state change and
    /// graduate the token if the threshold is crossed.
    pub fn buy(
        curve: &BondingCurve,
        status: TokenStatus,
        fee_bps: i128,
        xlm_raised: i128,
        xlm_amount: i128,
        min_tokens: i128,
    ) -> (r: Result<BuyOutcome, Error>)
        requires
            curve.well_formed(),
            0 <= fee_bps <= 10000,
            xlm_raised >= 0,
        ensures
            ({
                let b = curve.xlm_reserve as int;
                let t = curve.tokens_remaining as int;
                let k = curve.k as int;
                let gross = buy_tokens_value(b, t, k, xlm_amount as int);
                let fee = if fee_bps == 0 {
                    0int
                } else {
                    gross * fee_bps / 10000
                };
                let net = gross - fee;
                let pb = saturating_price_value(b, t);
                let pa = saturating_price_value(b + xlm_amount, t - gross);
                match r {
                    Ok(o) => {
                        &&& xlm_amount > 0
                        &&& min_tokens >= 0
                        &&& status == TokenStatus::Bonding
                        &&& gross > 0
                        &&& o.tokens_gross == gross
                        &&& o.fee_amount == fee
                        &&& o.tokens_net == net
                        &&& net >= min_tokens
                        &&& o.curve == (BondingCurve {
                            xlm_reserve: (b + xlm_amount) as i128,
                            tokens_remaining: (t - gross) as i128,
                            tokens_sold: (curve.tokens_sold + gross) as i128,
                            ..*curve
                        })
                        &&& o.curve.well_formed()
                        &&& o.price_before == pb
                        &&& o.price_after == pa
                        &&& o.slippage_bps == trunc_div((pa - pb) * 10000, pb)
                        &&& o.xlm_raised == xlm_raised + xlm_amount
                        &&& o.market_cap == 2 * (xlm_raised + xlm_amount)
                        &&& o.status == (if xlm_raised + xlm_amount >= GRADUATION_THRESHOLD {
                            TokenStatus::Graduated
                        } else {
                            TokenStatus::Bonding
                        })
                    },
                    Err(Error::InvalidAmount) => xlm_amount <= 0 || min_tokens < 0,
                    Err(Error::AlreadyGraduated) => xlm_amount > 0 && min_tokens >= 0 && status
                        != TokenStatus::Bonding,
                    Err(Error::InsufficientLiquidity) => b + xlm_amount <= i128::MAX && gross <= 0,
                    Err(Error::SlippageExceeded) => gross > 0 && net < min_tokens,
                    Err(Error::DivisionByZero) => pb == 0,
                    Err(Error::Overflow) => {
                        ||| b + xlm_amount > i128::MAX
                        ||| fee_bps > 0 && gross * fee_bps > i128::MAX
                        ||| (pa - pb) * 10000 > i128::MAX
                        ||| (pa - pb) * 10000 < i128::MIN
                        ||| xlm_raised + xlm_amount > i128::MAX
                        ||| 2 * (xlm_raised + xlm_amount) > i128::MAX
                    },
                    Err(Error::Underflow) => false,
                    Err(Error::InsufficientLiquidityForGraduation) => false,
                    Err(_) => false,
                }
            }),
            // A well-sized buy within every machine bound always succeeds.
            ({
                let b = curve.xlm_reserve as int;
                let t = curve.tokens_remaining as int;
                let k = curve.k as int;
                let gross = buy_tokens_value(b, t, k, xlm_amount as int);
                let fee = if fee_bps == 0 {
                    0int
                } else {
                    gross * fee_bps / 10000
                };
                let pb = saturating_price_value(b, t);
                let pa = saturating_price_value(b + xlm_amount, t - gross);
                (xlm_amount > 0 && min_tokens >= 0 && status == TokenStatus::Bonding && b
                    + xlm_amount <= i128::MAX && gross > 0 && (fee_bps == 0 || gross * fee_bps
                    <= i128::MAX) && gross - fee >= min_tokens && pb > 0 && i128::MIN <= (pa - pb)
                    * 10000 <= i128::MAX && xlm_raised + xlm_amount <= i128::MAX && 2 * (xlm_raised
                    + xlm_amount) <= i128::MAX) ==> r is Ok
            }),
    {
        if xlm_amount <= 0 {
            return Err(Error::InvalidAmount);
        }
        if min_tokens < 0 {
            return Err(Error::InvalidAmount);
        }
        match status {
            TokenStatus::Bonding => {},
            TokenStatus::Graduated => {
                return Err(Error::AlreadyGraduated);
            },
        }

        let price_before = curve.get_current_price();

        let tokens_gross = match curve.calculate_buy(xlm_amount) {
            Ok(v) => v,
            Err(e) => {
                return Err(e);
            },
        };

        let (tokens_net, fee_amount) = match fee_management::apply_trading_fee(
            tokens_gross,
            fee_bps,
        ) {
            Ok(v) => v,
            Err(e) => {
                return Err(e);
            },
        };

        if tokens_net < min_tokens {
            return Err(Error::SlippageExceeded);
        }

        let mut new_curve = *curve;
        proof {
            // The priced buy always fits: the payout stays within the
            // remaining tokens and the sold total within the supply.
            let b = curve.xlm_reserve as int;
            let t = curve.tokens_remaining as int;
            let k = curve.k as int;
            lemma_div_pos_is_pos(k, b + xlm_amount);
        }
        match new_curve.execute_buy(xlm_amount, tokens_gross) {
            Ok(()) => {},
            Err(e) => {
                return Err(e);
            },
        }

        let price_after = new_curve.get_current_price();

        let slippage_bps = match math::calculate_slippage_bps(price_before, price_after) {
            Ok(v) => v,
            Err(e) => {
                return Err(e);
            },
        };

        let new_raised = match math::safe_add(xlm_raised, xlm_amount) {
            Ok(v) => v,
            Err(e) => {
                return Err(e);
            },
        };
        let market_cap = match math::safe_mul(new_raised, 2) {
            Ok(v) => v,
            Err(e) => {
                return Err(e);
            },
        };

        let status_after = if new_raised >= GRADUATION_THRESHOLD {
            TokenStatus::Graduated
        } else {
            TokenStatus::Bonding
        };

        Ok(
            BuyOutcome {
                curve: new_curve,
                tokens_net,
                tokens_gross,
                fee_amount,
                price_before,
                price_after,
                slippage_bps,
                xlm_raised: new_raised,
                market_cap,
                status: status_after,
            },
        )
    }

    /// Sell tokens back to the curve: price the trade, withhold the trading
    /// fee, check the seller's slippage bound and apply the state change.
    pub fn sell(
        curve: &BondingCurve,
        status: TokenStatus,
        fee_bps: i128,
        xlm_raised: i128,
        token_amount: i128,
        min_xlm: i128,
    ) -> (r: Result<SellOutcome, Error>)
        requires
            curve.well_formed(),
            0 <= fee_bps <= 10000,
        ensures
            ({
                let b = curve.xlm_reserve as int;
                let t = curve.tokens_remaining as int;
                let k = curve.k as int;
                let gross = sell_xlm_value(b, t, k, token_amount as int);
                let fee = if fee_bps == 0 {
                    0int
                } else {
                    gross * fee_bps / 10000
                };
                let net = gross - fee;
                match r {
                    Ok(o) => {
                        &&& token_amount > 0
                        &&& min_xlm >= 0
                        &&& status == TokenStatus::Bonding
                        &&& token_amount <= curve.tokens_sold
                        &&& gross > 0
                        &&& o.xlm_gross == gross
                        &&& o.fee_amount == fee
                        &&& o.xlm_net == net
                        &&& net >= min_xlm
                        &&& o.curve == (BondingCurve {
                            xlm_reserve: (b - gross) as i128,
                            tokens_remaining: (t + token_amount) as i128,
                            tokens_sold: (curve.tokens_sold - token_amount) as i128,
                            ..*curve
                        })
                        &&& o.curve.well_formed()
                        &&& o.xlm_raised == xlm_raised - gross
                        &&& o.market_cap == 2 * (xlm_raised - gross)
                    },
                    Err(Error::InvalidAmount) => token_amount <= 0 || min_xlm < 0,
                    Err(Error::AlreadyGraduated) => token_amount > 0 && min_xlm >= 0 && status
                        != TokenStatus::Bonding,
                    Err(Error::InsufficientBalance) => token_amount > curve.tokens_sold,
                    Err(Error::InsufficientLiquidity) => 0 < token_amount <= curve.tokens_sold
                        && gross <= 0,
                    Err(Error::SlippageExceeded) => gross > 0 && net < min_xlm,
                    Err(Error::Overflow) => {
                        ||| fee_bps > 0 && gross * fee_bps > i128::MAX
                        ||| 2 * (xlm_raised - gross) > i128::MAX
                        ||| 2 * (xlm_raised - gross) < i128::MIN
                    },
                    Err(Error::Underflow) => xlm_raised - gross < i128::MIN,
                    Err(_) => false,
                }
            }),
            // A well-sized sell within every machine bound always succeeds.
            ({
                let b = curve.xlm_reserve as int;
                let t = curve.tokens_remaining as int;
                let k = curve.k as int;
                let gross = sell_xlm_value(b, t, k, token_amount as int);
                let fee = if fee_bps == 0 {
                    0int
                } else {
                    gross * fee_bps / 10000
                };
                (token_amount > 0 && min_xlm >= 0 && status == TokenStatus::Bonding && token_amount
                    <= curve.tokens_sold && gross > 0 && (fee_bps == 0 || gross * fee_bps
                    <= i128::MAX) && gross - fee >= min_xlm && xlm_raised - gross >= i128::MIN
                    && i128::MIN <= 2 * (xlm_raised - gross) <= i128::MAX) ==> r is Ok
            }),
    {
        if token_amount <= 0 {
            return Err(Error::InvalidAmount);
        }
        if min_xlm < 0 {
            return Err(Error::InvalidAmount);
        }
        match status {
            TokenStatus::Bonding => {},
            TokenStatus::Graduated => {
                return Err(Error::AlreadyGraduated);
            },
        }

        let xlm_gross = match curve.calculate_sell(token_amount) {
            Ok(v) => v,
            Err(e) => {
                return Err(e);
            },
        };

        let (xlm_net, fee_amount) = match fee_management::apply_trading_fee(xlm_gross, fee_bps) {
            Ok(v) => v,
            Err(e) => {
                return Err(e);
            },
        };

        if xlm_net < min_xlm {
            return Err(Error::SlippageExceeded);
        }

        let mut new_curve = *curve;
        proof {
            let t = curve.tokens_remaining as int;
            let k = curve.k as int;
            let n = token_amount as int;
            lemma_div_pos_is_pos(k, t + n);
            lemma_div_nonincreasing(k, t + n);
        }
        match new_curve.execute_sell(xlm_gross, token_amount) {
            Ok(()) => {},
            Err(e) => {
                return Err(e);
            },
        }

        let new_raised = match math::safe_sub(xlm_raised, xlm_gross) {
            Ok(v) => v,
            Err(e) => {
                return Err(e);
            },
        };
        let market_cap = match math::safe_mul(new_raised, 2) {
            Ok(v) => v,
            Err(e) => {
                return Err(e);
            },
        };

        Ok(
            SellOutcome {
                curve: new_curve,
                xlm_net,
                xlm_gross,
                fee_amount,
                xlm_raised: new_raised,
                market_cap,
            },
        )
    }

    /// Graduate a token: the curve must still hold liquidity on both sides
    /// to seed the pair it moves to.
    pub fn graduate_to_amm(curve: &BondingCurve) -> (r: Result<TokenStatus, Error>)
        ensures
            curve.xlm_reserve <= 0 || curve.tokens_remaining <= 0 ==> r == Err::<
                TokenStatus,
                Error,
            >(Error::InsufficientLiquidityForGraduation),
            curve.xlm_reserve > 0 && curve.tokens_remaining > 0 ==> r == Ok::<TokenStatus, Error>(
                TokenStatus::Graduated,
            ),
    {
        if curve.xlm_reserve <= 0 || curve.tokens_remaining <= 0 {
            return Err(Error::InsufficientLiquidityForGraduation);
        }
        Ok(TokenStatus::Graduated)
    }

    /// How far towards graduation the raised total has come, from 0 to
    /// 10000 basis points, saturated at 100%.
    pub fn get_graduation_progress(xlm_raised: i128) -> (r: i128)
        requires
            xlm_raised >= 0,
        ensures
            xlm_raised * 10000 > i128::MAX ==> r == 10000,
            xlm_raised * 10000 <= i128::MAX ==> r == vstd::math::min(
                xlm_raised * 10000 / GRADUATION_THRESHOLD as int,
                10000,
            ),
    {
        let scaled = match xlm_raised.checked_mul(10_000) {
            Some(v) => v,
            None => {
                return 10_000;
            },
        };
        proof {
            lemma_div_pos_is_pos(scaled as int, GRADUATION_THRESHOLD as int);
            lemma_div_nonincreasing(scaled as int, GRADUATION_THRESHOLD as int);
        }
        let progress = scaled / GRADUATION_THRESHOLD;
        if progress < 10_000 {
            progress
        } else {
            10_000
        }
    }
}

} // verus!
