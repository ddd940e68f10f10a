//! Tests for the token factory: validation, the quadratic curve, the
//! multi-shape curve and the trade transforms.

use amm_engine::token_factory::bonding_curve::BondingCurve;
use amm_engine::token_factory::bonding_curve_v2::{BondingCurveV2, CurveType};
use amm_engine::token_factory::engine::TokenFactory;
use amm_engine::token_factory::errors::Error;
use amm_engine::token_factory::validation;

#[test]
fn test_new_curve() {
    let curve = BondingCurve::new(1_000_000_000);
    assert_eq!(curve.circulating_supply, 0);
    assert_eq!(curve.total_supply, 1_000_000_000);
    assert_eq!(curve.xlm_reserve, 0);
}

#[test]
fn test_initial_price() {
    let curve = BondingCurve::new(1_000_000_000);
    assert_eq!(curve.get_current_price(), 1_000); // Base price
}

#[test]
fn test_buy_calculation() {
    let curve = BondingCurve::new(1_000_000_000);
    let tokens = curve.calculate_buy_amount(10_000_000); // 1 XLM
    assert!(tokens > 0);
}

#[test]
fn test_quad_price_grows_with_large_supply() {
    // Past k tokens in circulation the squared ratio dominates the base
    // price.
    let mut curve = BondingCurve::new(1_000_000_000);
    curve.apply_buy(100_000_000, 20_000_000);
    // ratio = 20e6 * 1e4 / 1e6 = 200_000; squared and rescaled twice that is
    // 1000 * 4_000_000 / 10_000 = 400_000.
    assert_eq!(curve.get_current_price(), 400_000);
    assert!(curve.get_current_price() > 1_000);
}

#[test]
fn test_quad_sell_pays_discount() {
    let curve = BondingCurve::new(1_000_000_000);
    // At the base price of 1000, the sell price is 980 per token.
    let xlm = curve.calculate_sell_amount(10_000_000);
    assert_eq!(xlm, 980);
}

#[test]
fn test_new_linear_curve() {
    let curve = BondingCurveV2::new_linear(1_000_000_000);
    assert_eq!(curve.circulating_supply, 0);
    assert_eq!(curve.curve_type, CurveType::Linear);
    assert_eq!(curve.xlm_reserve, 0);
}

#[test]
fn bonding_curve_v2_test_initial_price() {
    let curve = BondingCurveV2::new_linear(1_000_000_000);
    assert_eq!(curve.get_current_price(), 100);
}

#[test]
fn bonding_curve_v2_test_buy_calculation() {
    let curve = BondingCurveV2::new_linear(1_000_000_000);
    let tokens = curve.calculate_buy_amount(10_000_000).unwrap(); // 1 XLM
    assert!(tokens > 0);
}

#[test]
fn test_sell_with_penalty() {
    let mut curve = BondingCurveV2::new_linear(1_000_000_000);

    // Simulate buy first
    let _ = curve.apply_buy(10_000_000, 100_000);

    // Try to sell
    let xlm_out = curve.calculate_sell_amount(50_000).unwrap();

    // Should be less than buy price due to penalty
    assert!(xlm_out < 5_000_000); // Less than half of what was spent
}

#[test]
fn test_overflow_protection() {
    let curve = BondingCurveV2::new_linear(1_000_000_000);

    // Try to buy with massive amount
    let result = curve.calculate_buy_amount(i128::MAX);

    // Should handle gracefully (might return error or max value)
    assert!(result.is_ok() || result.is_err());
}

#[test]
fn test_exponential_higher_than_linear() {
    let linear = BondingCurveV2::new_linear(1_000_000_000);
    let mut exp = BondingCurveV2::new_exponential(1_000_000_000);

    // Simulate some circulation
    let _ = exp.apply_buy(100_000_000, 100_000);

    // Exponential should have higher price
    assert!(exp.get_current_price() >= linear.get_current_price());
}

#[test]
fn test_sigmoid_price_phases() {
    let total = 1_000_000_000;
    let mut curve = BondingCurveV2::new_sigmoid(total);
    // Early phase: half the linear price.
    let _ = curve.apply_buy(0, 1_000_000);
    let early = curve.get_current_price();
    let mut linear_twin = BondingCurveV2::new_linear(total);
    linear_twin.k = curve.k;
    let _ = linear_twin.apply_buy(0, 1_000_000);
    assert_eq!(early, linear_twin.get_current_price() / 2);

    // Late phase: twice the linear price.
    let late_supply = total / 2 * 3 / 2;
    let _ = curve.apply_buy(0, late_supply - 1_000_000);
    let _ = linear_twin.apply_buy(0, late_supply - 1_000_000);
    assert_eq!(curve.get_current_price(), linear_twin.get_current_price() * 2);
}

#[test]
fn test_validate_name() {
    // Valid lengths
    assert!(validation::validate_name_length(3).is_ok());
    assert!(validation::validate_name_length(10).is_ok());

    // Too short
    assert_eq!(
        validation::validate_name_length(2),
        Err(Error::InvalidNameLength)
    );

    // Too long
    assert_eq!(
        validation::validate_name_length(52),
        Err(Error::InvalidNameLength)
    );
}

#[test]
fn test_validate_supply() {
    // Valid
    assert!(validation::validate_supply(1_000_000).is_ok());
    assert!(validation::validate_supply(1_000_000_000).is_ok());

    // Too small
    assert_eq!(validation::validate_supply(999_999), Err(Error::InvalidSupply));

    // Too large
    assert_eq!(
        validation::validate_supply(2_000_000_000_000_000),
        Err(Error::InvalidSupply)
    );
}

#[test]
fn test_validate_decimals() {
    assert!(validation::validate_decimals(7).is_ok());
    assert!(validation::validate_decimals(18).is_ok());
    assert_eq!(validation::validate_decimals(19), Err(Error::InvalidDecimals));
}

#[test]
fn validation_test_price_impact() {
    // Small impact - OK
    assert!(validation::validate_price_impact(1000, 1040).is_ok()); // 4%

    // Large impact - Error
    assert_eq!(
        validation::validate_price_impact(1000, 1060),
        Err(Error::PriceImpactTooHigh)
    ); // 6%
}

#[test]
fn test_price_impact_first_trade_passes() {
    assert!(validation::validate_price_impact(0, 1_000_000).is_ok());
}

#[test]
fn test_check_rate_limits() {
    assert!(TokenFactory::check_rate_limits(0, None, 100).is_ok());
    assert_eq!(
        TokenFactory::check_rate_limits(10, None, 100).unwrap_err(),
        Error::TooManyTokens
    );
    assert_eq!(
        TokenFactory::check_rate_limits(1, Some(100), 200).unwrap_err(),
        Error::CreationCooldown
    );
    assert!(TokenFactory::check_rate_limits(1, Some(100), 3700).is_ok());
}

#[test]
fn test_create_token_validates_and_seeds_curve() {
    let curve = TokenFactory::create_token(
        10,
        5,
        7,
        1_000_000_000,
        64,
        CurveType::Exponential,
        0,
        None,
        100,
    )
    .unwrap();
    assert_eq!(curve.curve_type, CurveType::Exponential);
    assert_eq!(curve.total_supply, 1_000_000_000);
    assert_eq!(curve.sell_penalty_bps, 300);

    assert_eq!(
        TokenFactory::create_token(2, 5, 7, 1_000_000_000, 64, CurveType::Linear, 0, None, 100)
            .unwrap_err(),
        Error::InvalidNameLength
    );
    assert_eq!(
        TokenFactory::create_token(10, 1, 7, 1_000_000_000, 64, CurveType::Linear, 0, None, 100)
            .unwrap_err(),
        Error::InvalidSymbolLength
    );
    assert_eq!(
        TokenFactory::create_token(10, 5, 19, 1_000_000_000, 64, CurveType::Linear, 0, None, 100)
            .unwrap_err(),
        Error::InvalidDecimals
    );
    assert_eq!(
        TokenFactory::create_token(10, 5, 7, 10, 64, CurveType::Linear, 0, None, 100).unwrap_err(),
        Error::InvalidSupply
    );
    assert_eq!(
        TokenFactory::create_token(10, 5, 7, 1_000_000_000, 300, CurveType::Linear, 0, None, 100)
            .unwrap_err(),
        Error::InvalidMetadataUri
    );
}

#[test]
fn test_factory_buy_rejected_by_price_impact() {
    // On a fresh curve even the smallest accepted buy moves the price far
    // past the five-percent ceiling, so the trade is rejected before any
    // state change.
    let curve = BondingCurveV2::new_linear(1_000_000_000);
    assert_eq!(
        TokenFactory::buy_tokens(&curve, false, 0, 1_000_000, 0).unwrap_err(),
        Error::PriceImpactTooHigh
    );
}

#[test]
fn test_factory_buy_and_sell_round() {
    // A deep curve: a trade of a couple of XLM barely moves the price, so
    // it passes the impact ceiling.
    let mut curve = BondingCurveV2::new_linear(1_000_000_000_000_000);
    let _ = curve.apply_buy(100_000_000, 1_000_000_000_000);

    let purchase = TokenFactory::buy_tokens(&curve, false, 0, 20_000_000, 0).unwrap();
    // Spot price is 1_000_000_100 stroops: 2 XLM buys 199_999 base units.
    assert_eq!(purchase.tokens_out, 199_999);
    assert_eq!(purchase.xlm_raised, 20_000_000);
    assert!(!purchase.graduated);

    let sale =
        TokenFactory::sell_tokens(&purchase.curve, false, purchase.xlm_raised, 150_000, 0).unwrap();
    assert!(sale.xlm_out > 0);
    // The payout stays under the spot value because of the sell penalty.
    assert!(sale.xlm_out < 15_000_005);
    assert_eq!(sale.xlm_raised, purchase.xlm_raised - sale.xlm_out);
}

#[test]
fn test_factory_buy_rejects_small_and_graduated() {
    let curve = BondingCurveV2::new_linear(1_000_000_000);
    assert_eq!(
        TokenFactory::buy_tokens(&curve, false, 0, 100, 0).unwrap_err(),
        Error::AmountTooSmall
    );
    assert_eq!(
        TokenFactory::buy_tokens(&curve, true, 0, 10_000_000, 0).unwrap_err(),
        Error::AlreadyGraduated
    );
}

#[test]
fn test_factory_sell_needs_reserve() {
    let mut curve = BondingCurveV2::new_linear(1_000_000_000);
    // Tokens in circulation but an empty reserve: the payout cannot be made.
    let _ = curve.apply_buy(0, 10_000_000);
    let r = TokenFactory::sell_tokens(&curve, false, 0, 1_000_000, 0);
    assert_eq!(r.unwrap_err(), Error::InsufficientReserve);
}
