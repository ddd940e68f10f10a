//! Tests for the launchpad's safe arithmetic, fees, price feed math and
//! trade transforms.

use amm_engine::sac_factory::bonding_curve::BondingCurve;
use amm_engine::sac_factory::engine::{SacFactory, BONDING_CURVE_SUPPLY, GRADUATION_THRESHOLD};
use amm_engine::sac_factory::errors::Error;
use amm_engine::sac_factory::fee_management::{self, FeeConfig};
use amm_engine::sac_factory::math;
use amm_engine::sac_factory::price_oracle;
use amm_engine::sac_factory::state_management::{require_active, require_not_paused, ContractState};
use amm_engine::sac_factory::storage::TokenStatus;

#[test]
fn test_safe_add() {
    assert_eq!(math::safe_add(100, 50).unwrap(), 150);
    assert!(math::safe_add(i128::MAX, 1).is_err());
}

#[test]
fn test_safe_sub() {
    assert_eq!(math::safe_sub(100, 50).unwrap(), 50);
    assert!(math::safe_sub(i128::MIN, 1).is_err());
}

#[test]
fn test_safe_mul() {
    assert_eq!(math::safe_mul(10, 5).unwrap(), 50);
    assert!(math::safe_mul(i128::MAX, 2).is_err());
}

#[test]
fn test_safe_div() {
    assert_eq!(math::safe_div(100, 5).unwrap(), 20);
    assert!(math::safe_div(100, 0).is_err());
}

#[test]
fn test_mul_div() {
    // (100 * 5) / 10 = 50
    assert_eq!(math::mul_div(100, 5, 10).unwrap(), 50);
    assert!(math::mul_div(100, 5, 0).is_err());
}

#[test]
fn test_apply_bps() {
    // 1% of 1000 = 10
    assert_eq!(math::apply_bps(1000, 100).unwrap(), 10);
    // 50% of 1000 = 500
    assert_eq!(math::apply_bps(1000, 5000).unwrap(), 500);
}

#[test]
fn test_calculate_slippage_bps() {
    // Price increase from 100 to 110 = 10% = 1000 bps
    assert_eq!(math::calculate_slippage_bps(100, 110).unwrap(), 1000);
    // Price increase from 100 to 105 = 5% = 500 bps
    assert_eq!(math::calculate_slippage_bps(100, 105).unwrap(), 500);
}

#[test]
fn math_test_sqrt() {
    assert_eq!(math::sqrt(0).unwrap(), 0);
    assert_eq!(math::sqrt(1).unwrap(), 1);
    assert_eq!(math::sqrt(4).unwrap(), 2);
    assert_eq!(math::sqrt(9).unwrap(), 3);
    assert_eq!(math::sqrt(16).unwrap(), 4);
    assert_eq!(math::sqrt(100).unwrap(), 10);
    assert!(math::sqrt(-1).is_err());
}

#[test]
fn test_safe_div_negative_rounds_towards_zero() {
    assert_eq!(math::safe_div(-7, 2).unwrap(), -3);
    assert_eq!(math::safe_div(7, -2).unwrap(), -3);
    assert_eq!(math::safe_div(-7, -2).unwrap(), 3);
    assert_eq!(math::safe_div(i128::MIN, -1).unwrap_err(), Error::Overflow);
}

#[test]
fn test_fee_config_creation() {
    let config = FeeConfig::new(100_000, 100).unwrap();

    assert_eq!(config.creation_fee, 100_000);
    assert_eq!(config.trading_fee_bps, 100);
}

#[test]
fn test_fee_config_rejects_bad_values() {
    assert_eq!(
        FeeConfig::new(-1, 100).unwrap_err(),
        Error::InvalidFeeConfiguration
    );
    assert_eq!(FeeConfig::new(0, 10_001).unwrap_err(), Error::FeeTooHigh);
    assert_eq!(FeeConfig::new(0, -1).unwrap_err(), Error::FeeTooHigh);
}

#[test]
fn test_calculate_trading_fee() {
    // 1% of 1000 = 10
    assert_eq!(fee_management::calculate_trading_fee(1000, 100).unwrap(), 10);
    // 5% of 1000 = 50
    assert_eq!(fee_management::calculate_trading_fee(1000, 500).unwrap(), 50);
    // 0.1% of 10000 = 10
    assert_eq!(fee_management::calculate_trading_fee(10_000, 10).unwrap(), 10);
}

#[test]
fn test_apply_trading_fee_splits_gross() {
    assert_eq!(fee_management::apply_trading_fee(1000, 100).unwrap(), (990, 10));
    assert_eq!(fee_management::apply_trading_fee(1000, 0).unwrap(), (1000, 0));
}

#[test]
fn test_calculate_market_cap_usd() {
    // Mock: 10,000 XLM at $0.10 per XLM = $1,000 market cap
    let xlm_amount = 10_000_0000000i128; // 10,000 XLM (7 decimals)
    let xlm_price = 100_000_000_000_000_000u128; // $0.10 (18 decimals)

    let market_cap = xlm_amount as u128 * xlm_price / 10_000_000;

    // Expected: 1000 USD with 18 decimals = 1_000_000_000_000_000_000_000
    assert_eq!(market_cap, 1_000_000_000_000_000_000_000u128);
}

#[test]
fn test_negative_amount_check() {
    // Test that negative amounts would be caught
    let xlm_amount = -100i128;
    assert!(xlm_amount < 0); // This would trigger InvalidAmount error
}

#[test]
fn test_market_cap_validation_logic() {
    // Test graduation market cap validation logic
    let xlm_raised = 10_000_0000000i128; // 10,000 XLM
    let xlm_price = 100_000_000_000_000_000u128; // $0.10
    let market_cap = (xlm_raised as u128 * xlm_price) / 10_000_000;

    let min_required = 500_000_000_000_000_000_000u128; // $500 minimum
    assert!(market_cap >= min_required); // Should pass validation
}

#[test]
fn test_market_cap_usd_function() {
    let cap = price_oracle::calculate_market_cap_usd(10_000_0000000, 100_000_000_000_000_000)
        .unwrap();
    assert_eq!(cap, 1_000_000_000_000_000_000_000u128);
    assert_eq!(
        price_oracle::calculate_market_cap_usd(-1, 1).unwrap_err(),
        Error::InvalidAmount
    );
    assert!(
        price_oracle::validate_graduation_market_cap(
            10_000_0000000,
            100_000_000_000_000_000,
            500_000_000_000_000_000_000
        )
        .unwrap()
    );
}

#[test]
fn test_price_freshness() {
    let price = price_oracle::PriceData {
        rate: 42,
        last_updated_base: 1000,
        last_updated_quote: 1000,
    };
    assert_eq!(price_oracle::validate_price_freshness(&price, 2000).unwrap(), 42);
    assert_eq!(
        price_oracle::validate_price_freshness(&price, 10_000).unwrap_err(),
        Error::OraclePriceStale
    );
}

#[test]
fn test_lifecycle_checks() {
    assert!(require_active(ContractState::Active).is_ok());
    assert_eq!(
        require_active(ContractState::Paused).unwrap_err(),
        Error::ContractPaused
    );
    assert!(require_not_paused(ContractState::Active).is_ok());
    assert_eq!(
        require_not_paused(ContractState::Paused).unwrap_err(),
        Error::ContractPaused
    );
}

#[test]
fn test_launch_token_validates_lengths() {
    assert_eq!(
        SacFactory::launch_token(0, 5).unwrap_err(),
        Error::InvalidName
    );
    assert_eq!(
        SacFactory::launch_token(33, 5).unwrap_err(),
        Error::InvalidName
    );
    assert_eq!(
        SacFactory::launch_token(10, 0).unwrap_err(),
        Error::InvalidSymbol
    );
    assert_eq!(
        SacFactory::launch_token(10, 13).unwrap_err(),
        Error::InvalidSymbol
    );

    let curve = SacFactory::launch_token(10, 5).unwrap();
    assert_eq!(curve.total_supply, BONDING_CURVE_SUPPLY);
    assert_eq!(curve.xlm_reserve, 10_000_000_000);
    assert_eq!(curve.k, 10_000_000_000 * BONDING_CURVE_SUPPLY);
}

#[test]
fn test_engine_buy_charges_fee_and_updates_state() {
    let curve = SacFactory::launch_token(10, 5).unwrap();
    let xlm_amount = 100_0000000;

    let outcome = SacFactory::buy(&curve, TokenStatus::Bonding, 100, 0, xlm_amount, 0).unwrap();

    // A 1% fee is withheld from the tokens the curve released.
    assert_eq!(
        outcome.fee_amount,
        outcome.tokens_gross * 100 / 10_000
    );
    assert_eq!(outcome.tokens_net, outcome.tokens_gross - outcome.fee_amount);
    assert_eq!(outcome.curve.xlm_reserve, curve.xlm_reserve + xlm_amount);
    assert_eq!(outcome.xlm_raised, xlm_amount);
    assert_eq!(outcome.market_cap, 2 * xlm_amount);
    assert_eq!(outcome.status, TokenStatus::Bonding);
    assert!(outcome.price_after > outcome.price_before);
}

#[test]
fn test_engine_buy_rejects_graduated_token() {
    let curve = SacFactory::launch_token(10, 5).unwrap();
    assert_eq!(
        SacFactory::buy(&curve, TokenStatus::Graduated, 100, 0, 100_0000000, 0).unwrap_err(),
        Error::AlreadyGraduated
    );
}

#[test]
fn test_engine_buy_slippage_bound() {
    let curve = SacFactory::launch_token(10, 5).unwrap();
    assert_eq!(
        SacFactory::buy(&curve, TokenStatus::Bonding, 100, 0, 100_0000000, i128::MAX).unwrap_err(),
        Error::SlippageExceeded
    );
}

#[test]
fn test_engine_buy_graduates_at_threshold() {
    let curve = SacFactory::launch_token(10, 5).unwrap();
    let outcome = SacFactory::buy(
        &curve,
        TokenStatus::Bonding,
        0,
        0,
        GRADUATION_THRESHOLD,
        0,
    )
    .unwrap();
    assert_eq!(outcome.status, TokenStatus::Graduated);
    assert_eq!(outcome.xlm_raised, GRADUATION_THRESHOLD);
}

#[test]
fn test_engine_sell_returns_base_asset() {
    let curve = SacFactory::launch_token(10, 5).unwrap();
    let buy = SacFactory::buy(&curve, TokenStatus::Bonding, 0, 0, 100_0000000, 0).unwrap();

    let sell = SacFactory::sell(
        &buy.curve,
        TokenStatus::Bonding,
        0,
        buy.xlm_raised,
        buy.tokens_gross,
        0,
    )
    .unwrap();

    // With no fee, selling the exact tokens bought returns the exact spend.
    assert_eq!(sell.xlm_net, 100_0000000);
    assert_eq!(sell.xlm_raised, 0);
    assert_eq!(sell.curve.tokens_sold, 0);
}

#[test]
fn test_engine_sell_more_than_sold_fails() {
    let curve = SacFactory::launch_token(10, 5).unwrap();
    let buy = SacFactory::buy(&curve, TokenStatus::Bonding, 0, 0, 100_0000000, 0).unwrap();
    assert_eq!(
        SacFactory::sell(
            &buy.curve,
            TokenStatus::Bonding,
            0,
            buy.xlm_raised,
            buy.tokens_gross + 1,
            0
        )
        .unwrap_err(),
        Error::InsufficientBalance
    );
}

#[test]
fn test_graduation_requires_liquidity() {
    let curve = BondingCurve::new(1000).unwrap();
    assert_eq!(
        SacFactory::graduate_to_amm(&curve).unwrap(),
        TokenStatus::Graduated
    );

    let drained = BondingCurve {
        tokens_remaining: 0,
        ..curve
    };
    assert_eq!(
        SacFactory::graduate_to_amm(&drained).unwrap_err(),
        Error::InsufficientLiquidityForGraduation
    );
}

#[test]
fn test_graduation_progress() {
    assert_eq!(SacFactory::get_graduation_progress(0), 0);
    assert_eq!(
        SacFactory::get_graduation_progress(GRADUATION_THRESHOLD / 2),
        5_000
    );
    assert_eq!(
        SacFactory::get_graduation_progress(GRADUATION_THRESHOLD),
        10_000
    );
    assert_eq!(
        SacFactory::get_graduation_progress(GRADUATION_THRESHOLD * 2),
        10_000
    );
}
