//! Tests for the pair pricing math, both the fixed-fee and the
//! overflow-checked configurable-fee versions.

use amm_engine::amm::errors::Error;
use amm_engine::amm::math;
use amm_engine::amm::math_v2;

#[test]
fn test_sqrt() {
    assert_eq!(math::sqrt(0), 0);
    assert_eq!(math::sqrt(1), 1);
    assert_eq!(math::sqrt(4), 2);
    assert_eq!(math::sqrt(9), 3);
    assert_eq!(math::sqrt(16), 4);
    assert_eq!(math::sqrt(100), 10);
    assert_eq!(math::sqrt(10000), 100);
}

#[test]
fn test_quote() {
    // 1:1 ratio
    assert_eq!(math::quote(100, 1000, 1000), 100);

    // 1:2 ratio
    assert_eq!(math::quote(100, 1000, 2000), 200);

    // 2:1 ratio
    assert_eq!(math::quote(100, 2000, 1000), 50);
}

#[test]
fn test_get_amount_out() {
    // With 1000 reserve each, swapping 100 should give ~90 (due to 0.3% fee)
    let reserve_in = 10_000_000;
    let reserve_out = 10_000_000;
    let amount_in = 1_000_000;

    let amount_out = math::get_amount_out(amount_in, reserve_in, reserve_out);

    // Should be less than input due to fee and price impact
    assert!(amount_out < amount_in);
    assert!(amount_out > 0);

    // Verify approximately 0.3% fee
    assert!(amount_out > 900_000 && amount_out < 1_000_000);
}

#[test]
fn test_get_amount_in() {
    let reserve_in = 10_000_000;
    let reserve_out = 10_000_000;
    let amount_out = 900_000;

    let amount_in = math::get_amount_in(amount_out, reserve_in, reserve_out);

    // Should be more than output due to fee
    assert!(amount_in > amount_out);
}

#[test]
fn test_roundtrip() {
    let reserve_in = 10_000_000;
    let reserve_out = 10_000_000;
    let amount_in = 1_000_000;

    let amount_out = math::get_amount_out(amount_in, reserve_in, reserve_out);
    let amount_in_required = math::get_amount_in(amount_out, reserve_in, reserve_out);

    // Should be approximately equal (within 1 due to rounding)
    assert!(
        (amount_in - amount_in_required).abs() <= 1,
        "amount_in: {}, amount_in_required: {}",
        amount_in,
        amount_in_required
    );
}

#[test]
fn math_v2_test_sqrt() {
    assert_eq!(math_v2::sqrt(0).unwrap(), 0);
    assert_eq!(math_v2::sqrt(1).unwrap(), 1);
    assert_eq!(math_v2::sqrt(4).unwrap(), 2);
    assert_eq!(math_v2::sqrt(9).unwrap(), 3);
    assert_eq!(math_v2::sqrt(16).unwrap(), 4);
    assert_eq!(math_v2::sqrt(100).unwrap(), 10);
    assert_eq!(math_v2::sqrt(10000).unwrap(), 100);
}

#[test]
fn test_sqrt_negative() {
    assert!(math_v2::sqrt(-1).is_err());
}

#[test]
fn math_v2_test_quote() {
    // 1:1 ratio
    assert_eq!(math_v2::quote(100, 1000, 1000).unwrap(), 100);

    // 1:2 ratio
    assert_eq!(math_v2::quote(100, 1000, 2000).unwrap(), 200);

    // 2:1 ratio
    assert_eq!(math_v2::quote(100, 2000, 1000).unwrap(), 50);
}

#[test]
fn math_v2_test_get_amount_out() {
    let reserve_in = 10_000_000;
    let reserve_out = 10_000_000;
    let amount_in = 1_000_000;

    let amount_out = math_v2::get_amount_out(amount_in, reserve_in, reserve_out, None).unwrap();

    // Should be less than input due to fee and price impact
    assert!(amount_out < amount_in);
    assert!(amount_out > 0);

    // Verify approximately 0.3% fee
    assert!(amount_out > 900_000 && amount_out < 1_000_000);
}

#[test]
fn math_v2_test_get_amount_in() {
    let reserve_in = 10_000_000;
    let reserve_out = 10_000_000;
    let amount_out = 900_000;

    let amount_in = math_v2::get_amount_in(amount_out, reserve_in, reserve_out, None).unwrap();

    // Should be more than output due to fee
    assert!(amount_in > amount_out);
}

#[test]
fn math_v2_test_price_impact() {
    let reserve_in = 10_000_000;
    let reserve_out = 10_000_000;
    let amount_in = 100_000; // 1% of reserve

    let impact = math_v2::calculate_price_impact(amount_in, reserve_in, reserve_out).unwrap();

    // Should have small price impact for 1% trade
    assert!(impact < 200); // Less than 2%
}

#[test]
fn test_large_trade_price_impact() {
    let reserve_in = 10_000_000;
    let reserve_out = 10_000_000;
    let amount_in = 1_000_000; // 10% of reserve

    let impact = math_v2::calculate_price_impact(amount_in, reserve_in, reserve_out).unwrap();

    // Larger trade should have higher impact
    assert!(impact > 500); // More than 5%
}

#[test]
fn test_validate_price_impact() {
    let reserve_in = 10_000_000;
    let reserve_out = 10_000_000;

    // Small trade should pass
    let small_amount = 100_000;
    assert!(math_v2::validate_price_impact(small_amount, reserve_in, reserve_out, None).is_ok());

    // Large trade should fail
    let large_amount = 2_000_000;
    assert!(math_v2::validate_price_impact(large_amount, reserve_in, reserve_out, None).is_err());
}

#[test]
fn math_v2_test_get_amount_out_zero_input() {
    assert_eq!(
        math_v2::get_amount_out(0, 1000, 1000, None).unwrap_err(),
        Error::InsufficientInputAmount
    );
}

#[test]
fn math_v2_test_get_amount_out_zero_reserve() {
    assert_eq!(
        math_v2::get_amount_out(100, 0, 1000, None).unwrap_err(),
        Error::InsufficientLiquidity
    );
}

#[test]
fn math_v2_test_get_amount_in_exceeds_reserve() {
    assert_eq!(
        math_v2::get_amount_in(1001, 1000, 1000, None).unwrap_err(),
        Error::InsufficientReserve
    );
}

#[test]
fn test_swap_output_below_spot_ratio() {
    // The output never reaches the fee-free spot ratio: out * ri < in * ro.
    let cases = [
        (1_000_000i128, 10_000_000i128, 10_000_000i128),
        (3i128, 7i128, 11i128),
        (500i128, 123_456i128, 654_321i128),
    ];
    for (amount_in, ri, ro) in cases {
        let out = math_v2::get_amount_out(amount_in, ri, ro, None).unwrap();
        assert!(out * ri < amount_in * ro);
        assert!(out <= math_v2::quote(amount_in, ri, ro).unwrap());
    }
}

#[test]
fn test_round_trip_never_overcharges() {
    // Feeding an exact-input output through the exact-output formula never
    // asks for more than one unit above the original input.
    let amount_in = 123_456i128;
    let ri = 10_000_000i128;
    let ro = 20_000_000i128;
    let out = math_v2::get_amount_out(amount_in, ri, ro, None).unwrap();
    let back = math_v2::get_amount_in(out, ri, ro, None).unwrap();
    assert!(back <= amount_in + 1);
}

#[test]
fn test_amount_in_covers_requested_output() {
    // The priced input, fed back through the exact-input formula, always
    // yields at least the requested output.
    let wanted = 250_000i128;
    let ri = 10_000_000i128;
    let ro = 10_000_000i128;
    let needed = math_v2::get_amount_in(wanted, ri, ro, None).unwrap();
    let got = math_v2::get_amount_out(needed, ri, ro, None).unwrap();
    assert!(got >= wanted);
}

#[test]
fn test_get_amount_out_custom_fee() {
    // A higher fee strictly reduces the output.
    let low = math_v2::get_amount_out(1_000_000, 10_000_000, 10_000_000, Some(30)).unwrap();
    let high = math_v2::get_amount_out(1_000_000, 10_000_000, 10_000_000, Some(100)).unwrap();
    assert!(high < low);
    // A 100% fee buys nothing.
    let all = math_v2::get_amount_out(1_000_000, 10_000_000, 10_000_000, Some(10_000)).unwrap();
    assert_eq!(all, 0);
}

#[test]
fn test_quote_overflow_reported() {
    assert_eq!(
        math_v2::quote(i128::MAX, 1000, 2).unwrap_err(),
        Error::Overflow
    );
}
