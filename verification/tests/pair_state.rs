//! Tests for the oracle, the input validation and the pair state
//! transforms.

use amm_engine::amm::errors::Error;
use amm_engine::amm::oracle::Oracle;
use amm_engine::amm::pair::AMMPair;
use amm_engine::amm::validation;

#[test]
fn test_new_oracle() {
    let oracle = Oracle::new();
    assert_eq!(oracle.last_observation.timestamp, 0);
    assert_eq!(oracle.index, 0);
}

#[test]
fn test_oracle_update() {
    let mut oracle = Oracle::new();

    // First update
    let result = oracle.update(0, 1_000_000, 2_000_000);
    assert!(result.is_ok());

    // Price should be stored
    assert!(oracle.last_observation.price_0_cumulative >= 0);
}

#[test]
fn test_oracle_same_timestamp_is_noop() {
    let mut oracle = Oracle::new();
    oracle.update(100, 1_000_000, 2_000_000).unwrap();
    let cumulative_0 = oracle.last_observation.price_0_cumulative;
    let cumulative_1 = oracle.last_observation.price_1_cumulative;
    let index = oracle.index;

    // A second tick at the same timestamp changes nothing, even with other
    // reserves.
    oracle.update(100, 5_000_000, 1_000_000).unwrap();
    assert_eq!(oracle.last_observation.price_0_cumulative, cumulative_0);
    assert_eq!(oracle.last_observation.price_1_cumulative, cumulative_1);
    assert_eq!(oracle.index, index);
}

#[test]
fn test_oracle_cumulative_grows_with_time() {
    let mut oracle = Oracle::new();
    oracle.update(100, 1_000_000, 2_000_000).unwrap();
    let after_first = oracle.last_observation.price_0_cumulative;
    // price0 = 2_000_000 * 1e9 / 1_000_000 = 2e9 per second, 100 seconds.
    assert_eq!(after_first, 200_000_000_000);

    oracle.update(110, 1_000_000, 2_000_000).unwrap();
    // Ten more seconds at the same price.
    assert_eq!(
        oracle.last_observation.price_0_cumulative,
        after_first + 20_000_000_000
    );
}

#[test]
fn test_oracle_twap_simple_window() {
    let mut oracle = Oracle::new();
    oracle.update(100, 1_000_000, 2_000_000).unwrap();
    oracle.update(200, 1_000_000, 2_000_000).unwrap();
    oracle.update(300, 1_000_000, 2_000_000).unwrap();

    // Constant price of 2e9 over any window.
    let twap = oracle.get_twap(100).unwrap();
    assert_eq!(twap, 2_000_000_000);
}

#[test]
fn test_oracle_twap_window_unavailable() {
    let mut oracle = Oracle::new();
    oracle.update(100, 1_000_000, 2_000_000).unwrap();

    // No buffered observation is old enough for a 200-second window.
    assert_eq!(
        oracle.get_twap(200).unwrap_err(),
        Error::OracleWindowUnavailable
    );

    // A zero window is rejected as an invalid amount.
    assert_eq!(oracle.get_twap(0).unwrap_err(), Error::InvalidAmount);
}

#[test]
fn test_oracle_spot_price() {
    let oracle = Oracle::new();
    assert_eq!(
        oracle.get_spot_price(1_000_000, 2_000_000).unwrap(),
        2_000_000_000
    );
    assert_eq!(
        oracle.get_spot_price(0, 2_000_000).unwrap_err(),
        Error::InsufficientLiquidity
    );
}

#[test]
fn test_validate_swap_amount() {
    assert!(validation::validate_swap_amount(100).is_ok());
    assert!(validation::validate_swap_amount(1000).is_ok());
    assert_eq!(
        validation::validate_swap_amount(50).unwrap_err(),
        Error::InsufficientInputAmount
    );
}

#[test]
fn test_validate_reserves() {
    assert!(validation::validate_reserves(1000, 2000).is_ok());
    assert_eq!(
        validation::validate_reserves(0, 1000).unwrap_err(),
        Error::InsufficientLiquidity
    );
    assert_eq!(
        validation::validate_reserves(1000, 0).unwrap_err(),
        Error::InsufficientLiquidity
    );
}

#[test]
fn test_k_invariant() {
    // K should increase after trade (due to fees)
    assert!(validation::validate_k_invariant(1000, 1000, 1100, 1000).is_ok());

    // K should not decrease
    assert_eq!(
        validation::validate_k_invariant(1000, 1000, 900, 900).unwrap_err(),
        Error::KInvariantViolated
    );
}

#[test]
fn test_k_invariant_rejects_equality() {
    // An unchanged reserve product means no fee reached the pool: a hard
    // failure, not a pass.
    assert_eq!(
        validation::validate_k_invariant(2, 3, 3, 2).unwrap_err(),
        Error::KInvariantViolated
    );
    assert_eq!(
        validation::validate_k_invariant(1000, 1000, 1000, 1000).unwrap_err(),
        Error::KInvariantViolated
    );
}

#[test]
fn test_validate_liquidity_amount() {
    assert!(validation::validate_liquidity_amount(1000).is_ok());
    assert_eq!(
        validation::validate_liquidity_amount(999).unwrap_err(),
        Error::InsufficientLiquidity
    );
}

#[test]
fn test_placeholder_for_future_tests() {
    // This ensures tests compile while we add comprehensive coverage
    assert_eq!(1 + 1, 2);
}

#[test]
fn test_first_liquidity_deposit_locks_minimum() {
    let state = AMMPair::initialize();
    let (state, a0, a1, liquidity) =
        AMMPair::add_liquidity(&state, 4_000_000, 1_000_000, 0, 0).unwrap();

    // sqrt(4e6 * 1e6) = 2e6; 1000 units stay locked forever.
    assert_eq!(a0, 4_000_000);
    assert_eq!(a1, 1_000_000);
    assert_eq!(liquidity, 2_000_000 - 1000);
    assert_eq!(state.total_supply, 2_000_000);
    assert_eq!(state.reserve_0, 4_000_000);
    assert_eq!(state.reserve_1, 1_000_000);
}

#[test]
fn test_first_liquidity_deposit_too_small() {
    let state = AMMPair::initialize();
    // sqrt(100 * 100) = 100 <= 1000: nothing can be minted.
    assert_eq!(
        AMMPair::add_liquidity(&state, 100, 100, 0, 0).unwrap_err(),
        Error::InsufficientLiquidityMinted
    );
}

#[test]
fn test_second_liquidity_deposit_follows_ratio() {
    let state = AMMPair::initialize();
    let (state, _, _, _) = AMMPair::add_liquidity(&state, 4_000_000, 1_000_000, 0, 0).unwrap();

    // Depositing at the 4:1 ratio takes both desired amounts in full.
    let (state, a0, a1, liquidity) =
        AMMPair::add_liquidity(&state, 400_000, 100_000, 0, 0).unwrap();
    assert_eq!(a0, 400_000);
    assert_eq!(a1, 100_000);
    // A tenth of the reserves earns a tenth of the supply.
    assert_eq!(liquidity, 200_000);
    assert_eq!(state.total_supply, 2_200_000);
}

#[test]
fn test_remove_liquidity_pays_proportional_share() {
    let state = AMMPair::initialize();
    let (state, _, _, minted) = AMMPair::add_liquidity(&state, 4_000_000, 1_000_000, 0, 0).unwrap();

    let (state, a0, a1) = AMMPair::remove_liquidity(&state, minted, 1_000_000, 0, 0).unwrap();
    // 1e6 of 2e6 total supply buys back half of each reserve.
    assert_eq!(a0, 2_000_000);
    assert_eq!(a1, 500_000);
    assert_eq!(state.reserve_0, 2_000_000);
    assert_eq!(state.reserve_1, 500_000);
    assert_eq!(state.total_supply, 1_000_000);
}

#[test]
fn test_remove_liquidity_checks_balance() {
    let state = AMMPair::initialize();
    let (state, _, _, minted) = AMMPair::add_liquidity(&state, 4_000_000, 1_000_000, 0, 0).unwrap();
    assert_eq!(
        AMMPair::remove_liquidity(&state, minted, minted + 1, 0, 0).unwrap_err(),
        Error::InsufficientLiquidity
    );
}

#[test]
fn test_swap_grows_reserve_product() {
    let state = AMMPair::initialize();
    let (state, _, _, _) =
        AMMPair::add_liquidity(&state, 10_000_000, 10_000_000, 0, 0).unwrap();

    let k_before = state.reserve_0 * state.reserve_1;
    let (state, amount_out) = AMMPair::swap(&state, 1_000_000, 0, true).unwrap();
    let k_after = state.reserve_0 * state.reserve_1;

    assert!(amount_out > 900_000 && amount_out < 1_000_000);
    assert!(k_after > k_before);
    assert_eq!(state.reserve_0, 11_000_000);
    assert_eq!(state.reserve_1, 10_000_000 - amount_out);
}

#[test]
fn test_swap_respects_minimum_output() {
    let state = AMMPair::initialize();
    let (state, _, _, _) =
        AMMPair::add_liquidity(&state, 10_000_000, 10_000_000, 0, 0).unwrap();
    assert_eq!(
        AMMPair::swap(&state, 1_000_000, 1_000_000, true).unwrap_err(),
        Error::InsufficientOutputAmount
    );
}

#[test]
fn test_pair_quoting_matches_math() {
    let state = AMMPair::initialize();
    let (state, _, _, _) =
        AMMPair::add_liquidity(&state, 10_000_000, 10_000_000, 0, 0).unwrap();

    let out = AMMPair::get_amount_out(&state, 1_000_000, true).unwrap();
    assert_eq!(
        out,
        amm_engine::amm::math::get_amount_out(1_000_000, 10_000_000, 10_000_000)
    );
    let back = AMMPair::get_amount_in(&state, out, false).unwrap();
    assert!(back <= 1_000_001);
}
