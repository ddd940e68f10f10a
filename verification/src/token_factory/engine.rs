//! Trade transforms of the token factory.
//!
//! Each function takes the token's curve snapshot and the trade inputs and
//! returns the new snapshot together with the settlement amounts, or a
//! typed error. Authorization, deployment, transfers, storage and events
//! belong to the dispatch layer.

use vstd::prelude::*;
use super::bonding_curve_v2::{BondingCurveV2, CurveType};
use super::errors::Error;
use super::validation;
use super::validation::{
    price_impact_bps_value, GRADUATION_THRESHOLD, MAX_TOKENS_PER_USER, TOKEN_CREATION_COOLDOWN,
};

verus! {

/// Tokens the curve releases for `xlm_amount` at the current spot price.
pub open spec fn buy_gross_value(curve: BondingCurveV2, xlm_amount: int) -> int {
    xlm_amount * 10_000_000 / curve.price_value()
}

/// The curve state after a buy of `xlm_amount` settles.
pub open spec fn curve_after_buy(curve: BondingCurveV2, xlm_amount: int) -> BondingCurveV2 {
    BondingCurveV2 {
        circulating_supply: (curve.circulating_supply + buy_gross_value(curve, xlm_amount)) as i128,
        xlm_reserve: (curve.xlm_reserve + xlm_amount) as i128,
        ..curve
    }
}

/// A buy that passed every validation and can settle.
pub open spec fn buy_admissible(
    curve: BondingCurveV2,
    graduated: bool,
    xlm_amount: int,
) -> bool {
    &&& xlm_amount >= 1_000_000
    &&& !graduated
    &&& xlm_amount * 10_000_000 <= i128::MAX
    &&& curve.price_value() > 0
}

/// Everything a settled factory buy hands back to the dispatch layer.
#[derive(Clone, Debug, PartialEq, Eq)]
pub struct TokenPurchase {
    /// Curve state after the buy.
    pub curve: BondingCurveV2,
    /// Tokens the buyer receives.
    pub tokens_out: i128,
    /// Base asset raised over the token's lifetime, after the trade.
    pub xlm_raised: i128,
    /// Whether the trade pushed the token across the graduation threshold.
    pub graduated: bool,
}

/// Everything a settled factory sell hands back to the dispatch layer.
#[derive(Clone, Debug, PartialEq, Eq)]
pub struct TokenSale {
    /// Curve state after the sell.
    pub curve: BondingCurveV2,
    /// Base asset the seller receives, after the sell penalty.
    pub xlm_out: i128,
    /// Base asset raised over the token's lifetime, after the trade.
    pub xlm_raised: i128,
}

/// Marker for the factory engine; the operations are associated functions
/// over explicit snapshots.
pub struct TokenFactory;

impl TokenFactory {
    /// Anti-spam checks on a creator: a cap on launched tokens and a
    /// cooldown between launches.
    pub fn check_rate_limits(
        creator_token_count: u32,
        last_creation_time: Option<u64>,
        now: u64,
    ) -> (r: Result<(), Error>)
        ensures
            creator_token_count >= 10 ==> r == Err::<(), Error>(Error::TooManyTokens),
            creator_token_count < 10 ==> match last_creation_time {
                Some(last) => if (if now >= last {
                    now - last
                } else {
                    0int
                }) < 3600 {
                    r == Err::<(), Error>(Error::CreationCooldown)
                } else {
                    r == Ok::<(), Error>(())
                },
                None => r == Ok::<(), Error>(()),
            },
    {
        if creator_token_count >= MAX_TOKENS_PER_USER {
            return Err(Error::TooManyTokens);
        }

        match last_creation_time {
            Some(last_creation) => {
                let time_elapsed = match now.checked_sub(last_creation) {
                    Some(v) => v,
                    None => 0,
                };
                if time_elapsed < TOKEN_CREATION_COOLDOWN {
                    return Err(Error::CreationCooldown);
                }
                Ok(())
            },
            None => Ok(()),
        }
    }

    /// Validate every parameter of a new token and seed its bonding curve
    /// with the requested shape.
    pub fn create_token(
        name_len: u32,
        symbol_len: u32,
        decimals: u32,
        initial_supply: i128,
        metadata_uri_len: u32,
        curve_type: CurveType,
        creator_token_count: u32,
        last_creation_time: Option<u64>,
        now: u64,
    ) -> (r: Result<BondingCurveV2, Error>)
        ensures
            !(3 <= name_len <= 32) ==> r == Err::<BondingCurveV2, Error>(Error::InvalidNameLength),
            3 <= name_len <= 32 && !(2 <= symbol_len <= 12) ==> r == Err::<BondingCurveV2, Error>(
                Error::InvalidSymbolLength,
            ),
            3 <= name_len <= 32 && 2 <= symbol_len <= 12 && decimals > 18 ==> r == Err::<
                BondingCurveV2,
                Error,
            >(Error::InvalidDecimals),
            3 <= name_len <= 32 && 2 <= symbol_len <= 12 && decimals <= 18 && !(1_000_000
                <= initial_supply <= 1_000_000_000_000_000) ==> r == Err::<BondingCurveV2, Error>(
                Error::InvalidSupply,
            ),
            3 <= name_len <= 32 && 2 <= symbol_len <= 12 && decimals <= 18 && 1_000_000
                <= initial_supply <= 1_000_000_000_000_000 && metadata_uri_len > 256 ==> r
                == Err::<BondingCurveV2, Error>(Error::InvalidMetadataUri),
            3 <= name_len <= 32 && 2 <= symbol_len <= 12 && decimals <= 18 && 1_000_000
                <= initial_supply <= 1_000_000_000_000_000 && metadata_uri_len <= 256 ==> {
                if creator_token_count >= 10 {
                    r == Err::<BondingCurveV2, Error>(Error::TooManyTokens)
                } else if (last_creation_time matches Some(last) && (if now >= last {
                    now - last
                } else {
                    0int
                }) < 3600) {
                    r == Err::<BondingCurveV2, Error>(Error::CreationCooldown)
                } else {
                    match curve_type {
                        CurveType::Linear => r matches Ok(c) && c.well_formed() && c
                            == (BondingCurveV2 {
                            curve_type: CurveType::Linear,
                            circulating_supply: 0,
                            total_supply: initial_supply,
                            base_price: 100,
                            k: 1_000_000_000,
                            xlm_reserve: 0,
                            sell_penalty_bps: 200,
                        }),
                        CurveType::Exponential => r matches Ok(c) && c.well_formed() && c
                            == (BondingCurveV2 {
                            curve_type: CurveType::Exponential,
                            circulating_supply: 0,
                            total_supply: initial_supply,
                            base_price: 100,
                            k: 100_000_000,
                            xlm_reserve: 0,
                            sell_penalty_bps: 300,
                        }),
                        CurveType::Sigmoid => r matches Ok(c) && c.well_formed() && c
                            == (BondingCurveV2 {
                            curve_type: CurveType::Sigmoid,
                            circulating_supply: 0,
                            total_supply: initial_supply,
                            base_price: 100,
                            k: 500_000_000,
                            xlm_reserve: 0,
                            sell_penalty_bps: 200,
                        }),
                    }
                }
            },
    {
        match validation::validate_name_length(name_len) {
            Ok(()) => {},
            Err(e) => {
                return Err(e);
            },
        }
        match validation::validate_symbol_length(symbol_len) {
            Ok(()) => {},
            Err(e) => {
                return Err(e);
            },
        }
        match validation::validate_decimals(decimals) {
            Ok(()) => {},
            Err(e) => {
                return Err(e);
            },
        }
        match validation::validate_supply(initial_supply) {
            Ok(()) => {},
            Err(e) => {
                return Err(e);
            },
        }
        match validation::validate_metadata_uri_length(metadata_uri_len) {
            Ok(()) => {},
            Err(e) => {
                return Err(e);
            },
        }
        match Self::check_rate_limits(creator_token_count, last_creation_time, now) {
            Ok(()) => {},
            Err(e) => {
                return Err(e);
            },
        }

        let curve = match curve_type {
            CurveType::Linear => BondingCurveV2::new_linear(initial_supply),
            CurveType::Exponential => BondingCurveV2::new_exponential(initial_supply),
            CurveType::Sigmoid => BondingCurveV2::new_sigmoid(initial_supply),
        };
        Ok(curve)
    }

    /// Buy tokens from the curve: price the trade, check the buyer's
    /// slippage bound, apply the state change, enforce the price-impact
    /// ceiling and graduate the token if the threshold is crossed.
    ///
    /// The conditional precondition asks the caller to make sure the
    /// post-trade price formula also stays within the 128-bit range. Every
    /// term of it is computable from the snapshot and the trade size, so a
    /// dispatch layer can evaluate it with checked arithmetic before
    /// calling; trades on curves whose parameters come out of the
    /// constructors here stay far from the bound.
    pub fn buy_tokens(
        curve: &BondingCurveV2,
        graduated: bool,
        xlm_raised: i128,
        xlm_amount: i128,
        min_tokens_out: i128,
    ) -> (r: Result<TokenPurchase, Error>)
        requires
            curve.well_formed(),
            curve.price_fits(),
            xlm_raised >= 0,
            buy_admissible(*curve, graduated, xlm_amount as int) && curve.circulating_supply
                + buy_gross_value(*curve, xlm_amount as int) <= i128::MAX && curve.xlm_reserve
                + xlm_amount <= i128::MAX ==> ({
                let after = curve_after_buy(*curve, xlm_amount as int);
                &&& after.price_fits()
                &&& (if after.price_value() > curve.price_value() {
                    after.price_value() - curve.price_value()
                } else {
                    curve.price_value() - after.price_value()
                }) * 10000 <= i128::MAX
            }),
        ensures
            ({
                let gross = buy_gross_value(*curve, xlm_amount as int);
                let after = curve_after_buy(*curve, xlm_amount as int);
                match r {
                    Ok(o) => {
                        &&& buy_admissible(*curve, graduated, xlm_amount as int)
                        &&& gross >= min_tokens_out
                        &&& o.tokens_out == gross
                        &&& o.curve == after
                        &&& o.curve.well_formed()
                        &&& curve.price_value() > 0 ==> price_impact_bps_value(
                            curve.price_value(),
                            after.price_value(),
                        ) <= 500
                        &&& o.xlm_raised == xlm_raised + xlm_amount
                        &&& o.graduated == (xlm_raised + xlm_amount >= GRADUATION_THRESHOLD)
                    },
                    Err(Error::AmountTooSmall) => xlm_amount < 1_000_000,
                    Err(Error::AlreadyGraduated) => xlm_amount >= 1_000_000 && graduated,
                    Err(Error::DivisionByZero) => curve.price_value() == 0,
                    Err(Error::SlippageExceeded) => buy_admissible(
                        *curve,
                        graduated,
                        xlm_amount as int,
                    ) && gross < min_tokens_out,
                    Err(Error::PriceImpactTooHigh) => buy_admissible(
                        *curve,
                        graduated,
                        xlm_amount as int,
                    ) && price_impact_bps_value(curve.price_value(), after.price_value()) > 500,
                    Err(Error::Overflow) => {
                        ||| xlm_amount * 10_000_000 > i128::MAX
                        ||| curve.circulating_supply + gross > i128::MAX
                        ||| curve.xlm_reserve + xlm_amount > i128::MAX
                        ||| xlm_raised + xlm_amount > i128::MAX
                    },
                    Err(_) => false,
                }
            }),
            // A buy within every machine bound that passes the slippage and
            // impact checks always succeeds.
            ({
                let gross = buy_gross_value(*curve, xlm_amount as int);
                let after = curve_after_buy(*curve, xlm_amount as int);
                (buy_admissible(*curve, graduated, xlm_amount as int) && curve.circulating_supply
                    + gross <= i128::MAX && curve.xlm_reserve + xlm_amount <= i128::MAX && gross
                    >= min_tokens_out && price_impact_bps_value(
                    curve.price_value(),
                    after.price_value(),
                ) <= 500 && xlm_raised + xlm_amount <= i128::MAX) ==> r is Ok
            }),
    {
        match validation::validate_buy_amount(xlm_amount) {
            Ok(()) => {},
            Err(e) => {
                return Err(e);
            },
        }
        if graduated {
            return Err(Error::AlreadyGraduated);
        }

        let old_price = curve.get_current_price();

        let tokens_out = match curve.calculate_buy_amount(xlm_amount) {
            Ok(v) => v,
            Err(e) => {
                return Err(e);
            },
        };

        if tokens_out < min_tokens_out {
            return Err(Error::SlippageExceeded);
        }

        let mut new_curve = *curve;
        match new_curve.apply_buy(xlm_amount, tokens_out) {
            Ok(()) => {},
            Err(e) => {
                return Err(e);
            },
        }

        let new_price = new_curve.get_current_price();

        match validation::validate_price_impact(old_price, new_price) {
            Ok(()) => {},
            Err(e) => {
                return Err(e);
            },
        }

        let new_raised = match xlm_raised.checked_add(xlm_amount) {
            Some(v) => v,
            None => {
                return Err(Error::Overflow);
            },
        };

        let now_graduated = new_raised >= GRADUATION_THRESHOLD;

        Ok(
            TokenPurchase {
                curve: new_curve,
                tokens_out,
                xlm_raised: new_raised,
                graduated: now_graduated,
            },
        )
    }

    /// Sell tokens back to the curve: price the trade with the sell
    /// penalty, check the seller's slippage bound and the reserve, and
    /// apply the state change.
    pub fn sell_tokens(
        curve: &BondingCurveV2,
        graduated: bool,
        xlm_raised: i128,
        token_amount: i128,
        min_xlm_out: i128,
    ) -> (r: Result<TokenSale, Error>)
        requires
            curve.well_formed(),
            curve.price_fits(),
            xlm_raised >= 0,
        ensures
            ({
                let gross = token_amount * curve.price_value() / 10_000_000;
                let penalty = gross * curve.sell_penalty_bps / 10000;
                let net = gross - penalty;
                match r {
                    Ok(o) => {
                        &&& token_amount >= 100_000
                        &&& !graduated
                        &&& token_amount <= curve.circulating_supply
                        &&& net >= min_xlm_out
                        &&& net <= curve.xlm_reserve
                        &&& o.xlm_out == net
                        &&& o.curve == (BondingCurveV2 {
                            circulating_supply: (curve.circulating_supply - token_amount) as i128,
                            xlm_reserve: (curve.xlm_reserve - net) as i128,
                            ..*curve
                        })
                        &&& o.curve.well_formed()
                        &&& o.xlm_raised == xlm_raised - net
                    },
                    Err(Error::AmountTooSmall) => token_amount < 100_000,
                    Err(Error::AlreadyGraduated) => token_amount >= 100_000 && graduated,
                    Err(Error::InsufficientBalance) => token_amount > curve.circulating_supply,
                    Err(Error::SlippageExceeded) => token_amount <= curve.circulating_supply && net
                        < min_xlm_out,
                    Err(Error::InsufficientReserve) => token_amount <= curve.circulating_supply
                        && net >= min_xlm_out && net > curve.xlm_reserve,
                    Err(Error::Overflow) => token_amount * curve.price_value() > i128::MAX,
                    Err(_) => false,
                }
            }),
            // A sell the circulating supply and the reserve can cover always
            // succeeds.
            ({
                let gross = token_amount * curve.price_value() / 10_000_000;
                let penalty = gross * curve.sell_penalty_bps / 10000;
                let net = gross - penalty;
                (token_amount >= 100_000 && !graduated && token_amount <= curve.circulating_supply
                    && token_amount * curve.price_value() <= i128::MAX && net >= min_xlm_out && net
                    <= curve.xlm_reserve) ==> r is Ok
            }),
    {
        match validation::validate_sell_amount(token_amount) {
            Ok(()) => {},
            Err(e) => {
                return Err(e);
            },
        }
        if graduated {
            return Err(Error::AlreadyGraduated);
        }

        let xlm_out = match curve.calculate_sell_amount(token_amount) {
            Ok(v) => v,
            Err(e) => {
                return Err(e);
            },
        };

        if xlm_out < min_xlm_out {
            return Err(Error::SlippageExceeded);
        }
        if xlm_out > curve.xlm_reserve {
            return Err(Error::InsufficientReserve);
        }

        let mut new_curve = *curve;
        match new_curve.apply_sell(xlm_out, token_amount) {
            Ok(()) => {},
            Err(e) => {
                return Err(e);
            },
        }

        let new_raised = match xlm_raised.checked_sub(xlm_out) {
            Some(v) => v,
            None => {
                return Err(Error::Underflow);
            },
        };

        Ok(TokenSale { curve: new_curve, xlm_out, xlm_raised: new_raised })
    }
}

} // verus!
