use secretswap_pair::asset::{Asset, AssetInfo};
use secretswap_pair::contract::{
    find_deposit, is_pool_token, place_deposit, place_offer, query_pool,
    query_reverse_simulation, query_simulation, reported_reserves, reserve_before_deposit,
    select_side, try_provide_liquidity, try_swap, try_withdraw_liquidity,
};
use secretswap_pair::decimal::Decimal;
use secretswap_pair::error::{Operands, PairError, Quantity};
use secretswap_pair::msg::{
    DepositPlacement, OfferPlacement, PoolResponse, ProvideOutcome, ReverseSimulationResponse,
    SimulationResponse, SwapOutcome,
};

fn token_info(addr: &str) -> AssetInfo {
    AssetInfo::Token {
        contract_addr: addr.to_string(),
        token_code_hash: format!("hash of {}", addr),
        viewing_key: "key".to_string(),
    }
}

fn token(addr: &str, amount: u128) -> Asset {
    Asset { info: token_info(addr), amount }
}

fn native(denom: &str, amount: u128) -> Asset {
    Asset { info: AssetInfo::NativeToken { denom: denom.to_string() }, amount }
}

const ONE: u128 = 1_000_000_000_000_000_000;

fn percent(x: u128) -> Decimal {
    Decimal { atomics: x * 10_000_000_000_000_000 }
}

#[test]
fn assets_are_equal_by_address_or_denomination() {
    let a = token_info("a");
    let a_with_other_key = AssetInfo::Token {
        contract_addr: "a".to_string(),
        token_code_hash: "other".to_string(),
        viewing_key: "other".to_string(),
    };
    assert!(a.equal(&a_with_other_key));
    assert!(!a.equal(&token_info("b")));
    assert!(native("uscrt", 0).info.equal(&native("uscrt", 5).info));
    assert!(!native("uscrt", 0).info.equal(&native("uatom", 0).info));
    // a token and a currency of the same name are different assets
    assert!(!token_info("uscrt").equal(&native("uscrt", 0).info));
    assert!(!native("uscrt", 0).info.equal(&token_info("uscrt")));
    assert!(native("uscrt", 0).info.is_native_token());
    assert!(!a.is_native_token());
}

#[test]
fn clones_are_equal() {
    let a = token("a", 5);
    assert_eq!(a.clone(), a);
    assert_eq!(a.with_amount(7), token("a", 7));
    assert_eq!(native("uscrt", 1).clone(), native("uscrt", 1));
}

#[test]
fn select_side_tries_the_first_side_first() {
    let pools = [token("a", 1), token("b", 2)];
    assert_eq!(select_side(&token_info("a"), &pools), Some(0));
    assert_eq!(select_side(&token_info("b"), &pools), Some(1));
    assert_eq!(select_side(&token_info("c"), &pools), None);
    let twins = [token("a", 1), token("a", 2)];
    assert_eq!(select_side(&token_info("a"), &twins), Some(0));
}

#[test]
fn only_pool_tokens_are_authorized() {
    let pools = [token("a", 1), native("uscrt", 2)];
    assert!(is_pool_token(&pools, &"a".to_string()));
    assert!(!is_pool_token(&pools, &"b".to_string()));
    // a native currency has no contract
    assert!(!is_pool_token(&pools, &"uscrt".to_string()));
    let pools = [native("uscrt", 2), token("b", 1)];
    assert!(is_pool_token(&pools, &"b".to_string()));
}

#[test]
fn swap_of_the_first_asset() {
    // the reserve of a already holds the 1000 offered
    let pools = [token("a", 1_001_000), token("b", 1_000_000)];
    assert_eq!(
        try_swap(&pools, [5, 7], &token("a", 1000), 3, 1000, None, None, None),
        Ok(SwapOutcome {
            return_asset: token("b", 997),
            spread_amount: 0,
            commission_amount: 3,
            asset0_volume: 1005,
            asset1_volume: 7,
        })
    );
}

#[test]
fn swap_of_the_second_asset() {
    let pools = [token("a", 2_000_000), token("b", 1_001_000)];
    assert_eq!(
        try_swap(&pools, [5, 7], &token("b", 1000), 3, 1000, None, None, None),
        Ok(SwapOutcome {
            return_asset: token("a", 1994),
            spread_amount: 1,
            commission_amount: 5,
            asset0_volume: 5,
            asset1_volume: 1007,
        })
    );
}

#[test]
fn swap_of_a_foreign_asset_is_invalid() {
    let pools = [token("a", 1_001_000), token("b", 1_000_000)];
    assert_eq!(
        try_swap(&pools, [0, 0], &token("c", 1000), 3, 1000, None, None, None),
        Err(PairError::InvalidAsset)
    );
    assert_eq!(
        try_swap(&pools, [0, 0], &native("a", 1000), 3, 1000, None, None, None),
        Err(PairError::InvalidAsset)
    );
}

#[test]
fn swap_of_more_than_the_reserve_holds_underflows() {
    let pools = [token("a", 999), token("b", 1_000_000)];
    assert_eq!(
        try_swap(&pools, [0, 0], &token("a", 1000), 3, 1000, None, None, None),
        Err(PairError::Underflow(Quantity::Reserve, Operands::Two(999, 1000)))
    );
}

#[test]
fn swap_into_an_empty_reserve_is_degenerate() {
    // the whole reserve is the offer itself
    let pools = [token("a", 1000), token("b", 1_000_000)];
    assert_eq!(
        try_swap(&pools, [0, 0], &token("a", 1000), 3, 1000, None, None, None),
        Err(PairError::DegenerateState(
            Quantity::ReturnAmount,
            Operands::Three(0, 1_000_000, 1000)
        ))
    );
}

#[test]
fn swap_volume_overflow() {
    let pools = [token("a", 1_001_000), token("b", 1_000_000)];
    assert_eq!(
        try_swap(&pools, [u128::MAX - 999, 0], &token("a", 1000), 3, 1000, None, None, None),
        Err(PairError::Overflow(Quantity::Volume, Operands::Two(u128::MAX - 999, 1000)))
    );
    assert_eq!(
        try_swap(&pools, [u128::MAX - 1000, 0], &token("a", 1000), 3, 1000, None, None, None)
            .unwrap()
            .asset0_volume,
        u128::MAX
    );
    // the other side's volume does not matter
    assert!(
        try_swap(&pools, [0, u128::MAX], &token("a", 1000), 3, 1000, None, None, None).is_ok()
    );
}

#[test]
fn swap_is_held_against_the_guard() {
    let pools = [token("a", 1_001_000), token("b", 1_000_000)];
    let offer = token("a", 1000);
    assert_eq!(
        try_swap(&pools, [0, 0], &offer, 3, 1000, Some(998), None, None),
        Err(PairError::ReturnBelowExpected)
    );
    assert!(try_swap(&pools, [0, 0], &offer, 3, 1000, Some(997), None, None).is_ok());
    // at a believed price of 1.0 the return before commission is exactly as expected
    assert!(
        try_swap(&pools, [0, 0], &offer, 3, 1000, None, Some(percent(100)), Some(percent(0)))
            .is_ok()
    );
    // at a believed price of 0.5 it is half of what is expected
    assert_eq!(
        try_swap(&pools, [0, 0], &offer, 3, 1000, None, Some(percent(50)), Some(percent(49))),
        Err(PairError::SpreadExceeded)
    );
    assert!(
        try_swap(&pools, [0, 0], &offer, 3, 1000, None, Some(percent(50)), Some(percent(50)))
            .is_ok()
    );
}

#[test]
fn swap_spread_guard_uses_the_computed_spread() {
    let pools = [token("a", 15), token("b", 10)];
    // return 4, spread 1, no commission: 1 / 5 = 20%
    assert!(try_swap(&pools, [0, 0], &token("a", 5), 0, 1, None, None, Some(percent(20))).is_ok());
    assert_eq!(
        try_swap(&pools, [0, 0], &token("a", 5), 0, 1, None, None, Some(percent(19))),
        Err(PairError::SpreadExceeded)
    );
}

#[test]
fn first_deposit_mints_the_square_root() {
    let pools = [token("a", 0), token("b", 0)];
    assert_eq!(
        try_provide_liquidity(&[token("a", 100), token("b", 400)], &pools, None, 0),
        Ok(ProvideOutcome { deposits: [100, 400], share: 200 })
    );
}

#[test]
fn deposits_are_matched_to_the_pool_order() {
    let pools = [token("a", 0), token("b", 0)];
    assert_eq!(
        try_provide_liquidity(&[token("b", 400), token("a", 100)], &pools, None, 0),
        Ok(ProvideOutcome { deposits: [100, 400], share: 200 })
    );
    assert_eq!(find_deposit(&[token("b", 400), token("a", 100)], &token_info("a")), Some(100));
    assert_eq!(find_deposit(&[token("b", 400), token("a", 100)], &token_info("c")), None);
    assert_eq!(find_deposit(&[token("a", 1), token("a", 2)], &token_info("a")), Some(1));
}

#[test]
fn later_deposit_mints_the_smaller_part() {
    let pools = [token("a", 1000), token("b", 1000)];
    assert_eq!(
        try_provide_liquidity(&[token("a", 100), token("b", 200)], &pools, None, 500),
        Ok(ProvideOutcome { deposits: [100, 200], share: 50 })
    );
}

#[test]
fn native_deposit_is_taken_out_of_the_reserve_first() {
    // the 100 uscrt came with the call and are already in the reserve
    let pools = [native("uscrt", 1100), token("b", 1000)];
    assert_eq!(
        try_provide_liquidity(&[native("uscrt", 100), token("b", 100)], &pools, None, 500),
        Ok(ProvideOutcome { deposits: [100, 100], share: 50 })
    );
    assert_eq!(reserve_before_deposit(&native("uscrt", 1100), 100), Some(1000));
    assert_eq!(reserve_before_deposit(&token("b", 1100), 100), Some(1100));
    assert_eq!(reserve_before_deposit(&native("uscrt", 99), 100), None);
    assert_eq!(reserve_before_deposit(&token("b", 99), 100), Some(99));
}

#[test]
fn native_deposit_above_the_reserve_underflows() {
    let pools = [native("uscrt", 1100), token("b", 1000)];
    assert_eq!(
        try_provide_liquidity(&[native("uscrt", 2000), token("b", 100)], &pools, None, 500),
        Err(PairError::Underflow(Quantity::Reserve, Operands::Two(1100, 2000)))
    );
}

#[test]
fn deposit_of_a_foreign_asset_is_invalid() {
    let pools = [token("a", 1000), token("b", 1000)];
    assert_eq!(
        try_provide_liquidity(&[token("a", 100), token("c", 100)], &pools, None, 500),
        Err(PairError::InvalidAsset)
    );
    assert_eq!(
        try_provide_liquidity(&[token("a", 100), token("a", 100)], &pools, None, 500),
        Err(PairError::InvalidAsset)
    );
}

#[test]
fn deposit_is_held_against_the_slippage_tolerance() {
    let pools = [token("a", 1000), token("b", 1000)];
    assert_eq!(
        try_provide_liquidity(&[token("a", 200), token("b", 100)], &pools, Some(percent(1)), 500),
        Err(PairError::SlippageExceeded)
    );
    assert_eq!(
        try_provide_liquidity(&[token("a", 100), token("b", 100)], &pools, Some(percent(1)), 500),
        Ok(ProvideOutcome { deposits: [100, 100], share: 50 })
    );
    // with a tolerance the very first deposit has no pool price to be held against
    let empty = [token("a", 0), token("b", 0)];
    assert_eq!(
        try_provide_liquidity(&[token("a", 100), token("b", 100)], &empty, Some(percent(1)), 0),
        Err(PairError::DegenerateState(Quantity::Rate, Operands::Three(0, ONE, 0)))
    );
}

#[test]
fn deposit_into_an_emptied_reserve_is_degenerate() {
    let pools = [token("a", 0), token("b", 1000)];
    assert_eq!(
        try_provide_liquidity(&[token("a", 100), token("b", 100)], &pools, None, 500),
        Err(PairError::DegenerateState(Quantity::Share, Operands::Three(100, 500, 0)))
    );
}

#[test]
fn withdrawal_refunds_each_side() {
    let pools = [token("a", 1000), native("uscrt", 2000)];
    assert_eq!(
        try_withdraw_liquidity(&pools, 100, 500),
        Ok([token("a", 200), native("uscrt", 400)])
    );
    assert_eq!(
        try_withdraw_liquidity(&pools, 500, 500),
        Ok([token("a", 1000), native("uscrt", 2000)])
    );
}

#[test]
fn withdrawal_without_supply_is_degenerate() {
    let pools = [token("a", 1000), token("b", 2000)];
    assert_eq!(
        try_withdraw_liquidity(&pools, 100, 0),
        Err(PairError::DegenerateState(Quantity::RefundAmount, Operands::Three(1000, 100, 0)))
    );
}

#[test]
fn pool_query_reports_obfuscated_figures() {
    let pools = [token("a", 1_000_000), token("b", 2_000_000)];
    assert_eq!(
        query_pool(&pools, 500_000, 98),
        Ok(PoolResponse {
            assets: [token("a", 1_009_800), token("b", 2_019_600)],
            total_share: 504_900,
        })
    );
    assert_eq!(
        query_pool(&pools, 500_000, 99),
        Ok(PoolResponse {
            assets: [token("a", 990_100), token("b", 1_980_200)],
            total_share: 495_050,
        })
    );
    assert_eq!(pools, [token("a", 1_000_000), token("b", 2_000_000)]);
    assert_eq!(
        query_pool(&[token("a", u128::MAX), token("b", 1)], 1, 98),
        Err(PairError::Overflow(
            Quantity::ReportedAmount,
            Operands::Three(u128::MAX, 10_098, 10_000)
        ))
    );
}

#[test]
fn simulation_prices_on_reported_reserves() {
    let pools = [token("a", 1_000_000), token("b", 2_000_000)];
    // draw 98 reports 1_009_800 and 2_019_600
    assert_eq!(
        query_simulation(&pools, &token("a", 1000), 98, 3, 1000),
        Ok(SimulationResponse { return_amount: 1994, spread_amount: 1, commission_amount: 5 })
    );
    assert_eq!(
        query_simulation(&pools, &token("b", 1000), 98, 3, 1000),
        Ok(SimulationResponse { return_amount: 499, spread_amount: 0, commission_amount: 1 })
    );
    let even = [token("a", 1_000_000), token("b", 1_000_000)];
    // draw 99 reports 990_100 on both sides, which shows in the spread
    assert_eq!(
        query_simulation(&even, &token("a", 1000), 99, 3, 1000),
        Ok(SimulationResponse { return_amount: 997, spread_amount: 1, commission_amount: 2 })
    );
    assert_eq!(
        query_simulation(&even, &token("a", 1000), 0, 3, 1000),
        Ok(SimulationResponse { return_amount: 997, spread_amount: 0, commission_amount: 3 })
    );
}

#[test]
fn simulation_failures() {
    let pools = [token("a", 1_000_000), token("b", 2_000_000)];
    assert_eq!(
        query_simulation(&pools, &token("c", 1000), 98, 3, 1000),
        Err(PairError::InvalidAsset)
    );
    assert_eq!(
        query_simulation(&pools, &token("a", 1000), 98, 3, 0),
        Err(PairError::DegenerateState(Quantity::CommissionAmount, Operands::Three(1999, 3, 0)))
    );
    // obfuscation fails before the asset is looked at
    assert_eq!(
        query_simulation(&[token("a", 1), token("b", u128::MAX)], &token("c", 1000), 98, 3, 1000),
        Err(PairError::Overflow(
            Quantity::ReportedAmount,
            Operands::Three(u128::MAX, 10_098, 10_000)
        ))
    );
}

#[test]
fn reverse_simulation_quotes_on_reported_reserves() {
    let pools = [token("a", 1_000_000), token("b", 2_000_000)];
    // asking for b: a is offered
    assert_eq!(
        query_reverse_simulation(&pools, &token("b", 1000), 98, 3, 1000),
        Ok(ReverseSimulationResponse { offer_amount: 501, spread_amount: 0, commission_amount: 3 })
    );
    assert_eq!(
        query_reverse_simulation(&pools, &token("a", 1000), 98, 3, 1000),
        Ok(ReverseSimulationResponse {
            offer_amount: 2007,
            spread_amount: 0,
            commission_amount: 3,
        })
    );
    let even = [token("a", 1_000_000), token("b", 1_000_000)];
    assert_eq!(
        query_reverse_simulation(&even, &token("b", 997), 0, 3, 1000),
        Ok(ReverseSimulationResponse { offer_amount: 999, spread_amount: 0, commission_amount: 2 })
    );
}

#[test]
fn reverse_simulation_failures() {
    let pools = [token("a", 1_000_000), token("b", 2_000_000)];
    assert_eq!(
        query_reverse_simulation(&pools, &token("c", 1000), 98, 3, 1000),
        Err(PairError::InvalidAsset)
    );
    assert_eq!(
        query_reverse_simulation(&pools, &token("b", 3_000_000), 98, 3, 1000),
        Err(PairError::Underflow(Quantity::Reserve, Operands::Two(2_019_600, 3_009_027)))
    );
}

#[test]
fn offer_is_placed_without_settings() {
    let pools = [token("a", 1_001_000), token("b", 2_000_000)];
    assert_eq!(
        place_offer(&pools, [5, 7], &token("a", 1000)),
        Ok(OfferPlacement {
            offer_pool: 1_000_000,
            ask_pool: token("b", 2_000_000),
            asset0_volume: 1005,
            asset1_volume: 7,
        })
    );
    assert_eq!(
        place_offer(&pools, [5, 7], &token("b", 1000)),
        Ok(OfferPlacement {
            offer_pool: 1_999_000,
            ask_pool: token("a", 1_001_000),
            asset0_volume: 5,
            asset1_volume: 1007,
        })
    );
    assert_eq!(place_offer(&pools, [5, 7], &token("c", 1000)), Err(PairError::InvalidAsset));
    assert_eq!(
        place_offer(&pools, [5, 7], &token("a", 1_001_001)),
        Err(PairError::Underflow(Quantity::Reserve, Operands::Two(1_001_000, 1_001_001)))
    );
    assert_eq!(
        place_offer(&pools, [5, u128::MAX], &token("b", 1)),
        Err(PairError::Overflow(Quantity::Volume, Operands::Two(u128::MAX, 1)))
    );
}

#[test]
fn swap_pays_and_keeps_no_more_than_the_ask_reserve() {
    // the whole ask reserve leaves the pool
    let pools = [token("a", 3), token("b", 1)];
    let outcome = try_swap(&pools, [0, 0], &token("a", 2), 0, 1, None, None, None).unwrap();
    assert_eq!(outcome.return_asset, token("b", 1));
    assert_eq!(outcome.commission_amount, 0);
    let pools = [token("a", 1_001_000), token("b", 1_000_000)];
    for (nom, denom) in [(0u128, 1u128), (3, 1000), (1, 2), (1, 1)] {
        let outcome =
            try_swap(&pools, [0, 0], &token("a", 1000), nom, denom, None, None, None).unwrap();
        assert_eq!(outcome.return_asset.amount + outcome.commission_amount, 1000);
        assert!(outcome.return_asset.amount + outcome.commission_amount <= 1_000_000);
    }
}

#[test]
fn deposit_is_placed_without_the_supply() {
    let pools = [native("uscrt", 1100), token("b", 1000)];
    assert_eq!(
        place_deposit(&[token("b", 100), native("uscrt", 100)], &pools, None),
        Ok(DepositPlacement { deposits: [100, 100], reserves: [1000, 1000] })
    );
    assert_eq!(
        place_deposit(&[token("b", 100), native("uscrt", 100)], &pools, Some(percent(1))),
        Ok(DepositPlacement { deposits: [100, 100], reserves: [1000, 1000] })
    );
    assert_eq!(
        place_deposit(&[token("b", 100), native("uscrt", 200)], &pools, Some(percent(1))),
        Err(PairError::SlippageExceeded)
    );
    assert_eq!(
        place_deposit(&[token("c", 100), native("uscrt", 100)], &pools, None),
        Err(PairError::InvalidAsset)
    );
    assert_eq!(
        place_deposit(&[token("b", 100), native("uscrt", 1101)], &pools, None),
        Err(PairError::Underflow(Quantity::Reserve, Operands::Two(1100, 1101)))
    );
}

#[test]
fn first_deposit_mints_the_floor_of_the_root() {
    let pools = [token("a", 0), token("b", 0)];
    for (deposit0, deposit1) in [(100u128, 101u128), (1, 1), (0, 5), (3, 5), (1 << 60, 1 << 51)] {
        let outcome =
            try_provide_liquidity(&[token("a", deposit0), token("b", deposit1)], &pools, None, 0)
                .unwrap();
        assert_eq!(outcome.deposits, [deposit0, deposit1]);
        assert_eq!(outcome.share, (deposit0 * deposit1).isqrt());
    }
}

#[test]
fn reserves_are_reported_around_the_asset() {
    let pools = [token("a", 1_000_000), token("b", 2_000_000)];
    assert_eq!(reported_reserves(&pools, &token_info("a"), 98), Ok((1_009_800, 2_019_600)));
    assert_eq!(reported_reserves(&pools, &token_info("b"), 98), Ok((2_019_600, 1_009_800)));
    assert_eq!(reported_reserves(&pools, &token_info("b"), 99), Ok((1_980_200, 990_100)));
    assert_eq!(reported_reserves(&pools, &token_info("c"), 98), Err(PairError::InvalidAsset));
    // the obfuscation fails before the asset is looked at
    assert_eq!(
        reported_reserves(&[token("a", u128::MAX), token("b", 1)], &token_info("c"), 98),
        Err(PairError::Overflow(
            Quantity::ReportedAmount,
            Operands::Three(u128::MAX, 10_098, 10_000)
        ))
    );
}

