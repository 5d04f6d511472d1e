//! The decisions of the pool's entry points, on plain values.
//!
//! Each function here takes what its caller has read from the ledger and the
//! settings, and returns what the caller has to send or store. None of them
//! reads or writes anything itself.

use vstd::prelude::*;

use crate::asset::{Asset, AssetInfo};
use crate::decimal::Decimal;
use crate::error::{Operands, PairError, Quantity};
use crate::guard::{
    assert_max_spread, assert_slippage_tolerance, max_spread_result, slippage_tolerance_result,
};
use crate::liquidity::{
    additional_shares_result, compute_additional_shares, compute_initial_shares,
    compute_withdrawal,
};
use crate::msg::{
    DepositPlacement, OfferPlacement, PoolResponse, ProvideOutcome, ReverseSimulationResponse,
    SimulationResponse, SwapOutcome,
};
use crate::obfuscation::{obfuscate, obfuscate_amount, obfuscate_amount_result, obfuscate_result};
use crate::swap::{compute_offer_amount, compute_swap, offer_amount_result, swap_result};
use crate::wide::{floor_sqrt, is_floor_sqrt, multiply_ratio_result};

verus! {

/// What [`try_withdraw_liquidity`] returns.
pub open spec fn withdraw_liquidity_result(
    pools: [Asset; 2],
    amount: u128,
    total_share: u128,
) -> Result<[Asset; 2], PairError> {
    match (
        multiply_ratio_result(pools[0].amount, amount, total_share, Quantity::RefundAmount),
        multiply_ratio_result(pools[1].amount, amount, total_share, Quantity::RefundAmount),
    ) {
        (Ok(refund0), Ok(refund1)) => Ok(
            [
                Asset { info: pools[0].info, amount: refund0 },
                Asset { info: pools[1].info, amount: refund1 },
            ],
        ),
        (Err(e), _) => Err(e),
        (_, Err(e)) => Err(e),
    }
}

/// The refunds for burning `amount` of the `total_share` outstanding shares
/// of a pool that holds `pools`: of each reserve the burned part.
pub fn try_withdraw_liquidity(pools: &[Asset; 2], amount: u128, total_share: u128) -> (r: Result<
    [Asset; 2],
    PairError,
>)
    ensures
        r == withdraw_liquidity_result(*pools, amount, total_share),
{
    let refund0 = compute_withdrawal(pools[0].amount, amount, total_share)?;
    let refund1 = compute_withdrawal(pools[1].amount, amount, total_share)?;
    let refunds = [pools[0].with_amount(refund0), pools[1].with_amount(refund1)];
    assert(refunds == withdraw_liquidity_result(*pools, amount, total_share)->Ok_0) by {
        assert(refunds@ =~= withdraw_liquidity_result(*pools, amount, total_share)->Ok_0@);
    }
    Ok(refunds)
}

/// Which side of the pool an asset is: `Some(0)` for the first, `Some(1)` for
/// the second, `None` for an asset the pool does not hold. The first side is
/// tried first.
pub open spec fn side_of(info: AssetInfo, pools: [Asset; 2]) -> Option<usize> {
    if info.same_asset(pools[0].info) {
        Some(0usize)
    } else if info.same_asset(pools[1].info) {
        Some(1usize)
    } else {
        None
    }
}

/// Finds the side of the pool that holds the asset `info`.
pub fn select_side(info: &AssetInfo, pools: &[Asset; 2]) -> (r: Option<usize>)
    ensures
        r == side_of(*info, *pools),
{
    if info.equal(&pools[0].info) {
        Some(0)
    } else if info.equal(&pools[1].info) {
        Some(1)
    } else {
        None
    }
}

/// Whether `sender` is the contract of one of the pool's tokens.
pub open spec fn pool_token(pools: [Asset; 2], sender: String) -> bool {
    ||| pools[0].info matches AssetInfo::Token { contract_addr, .. } && contract_addr@ == sender@
    ||| pools[1].info matches AssetInfo::Token { contract_addr, .. } && contract_addr@ == sender@
}

/// Whether `sender` is the contract of one of the pool's tokens: only such a
/// contract may hand in an offer.
pub fn is_pool_token(pools: &[Asset; 2], sender: &String) -> (r: bool)
    ensures
        r == pool_token(*pools, *sender),
{
    let first = match &pools[0].info {
        AssetInfo::Token { contract_addr, .. } => *contract_addr == *sender,
        AssetInfo::NativeToken { .. } => false,
    };
    let second = match &pools[1].info {
        AssetInfo::Token { contract_addr, .. } => *contract_addr == *sender,
        AssetInfo::NativeToken { .. } => false,
    };
    first || second
}

/// What [`query_pool`] returns.
pub open spec fn query_pool_result(
    pools: [Asset; 2],
    total_share: u128,
    random_number: u64,
) -> Result<PoolResponse, PairError> {
    match obfuscate_result([pools[0].amount, pools[1].amount], total_share, random_number) {
        Ok((reported, reported_share)) => Ok(
            PoolResponse {
                assets: [
                    Asset { info: pools[0].info, amount: reported[0] },
                    Asset { info: pools[1].info, amount: reported[1] },
                ],
                total_share: reported_share,
            },
        ),
        Err(e) => Err(e),
    }
}

/// The pool as an observer may see it: the true reserves `pools` and the true
/// `total_share`, each obfuscated under the draw `random_number`.
pub fn query_pool(pools: &[Asset; 2], total_share: u128, random_number: u64) -> (r: Result<
    PoolResponse,
    PairError,
>)
    ensures
        r == query_pool_result(*pools, total_share, random_number),
{
    let (reported, reported_share) = obfuscate(
        [pools[0].amount, pools[1].amount],
        total_share,
        random_number,
    )?;
    let assets = [pools[0].with_amount(reported[0]), pools[1].with_amount(reported[1])];
    assert(assets == query_pool_result(*pools, total_share, random_number)->Ok_0.assets) by {
        assert(assets@ =~= query_pool_result(*pools, total_share, random_number)->Ok_0.assets@);
    }
    Ok(PoolResponse { assets, total_share: reported_share })
}

/// What [`reported_reserves`] returns: both reserves are obfuscated first,
/// then the asset is placed.
pub open spec fn reported_reserves_result(
    pools: [Asset; 2],
    info: AssetInfo,
    random_number: u64,
) -> Result<(u128, u128), PairError> {
    match (
        obfuscate_amount_result(pools[0].amount, random_number),
        obfuscate_amount_result(pools[1].amount, random_number),
    ) {
        (Ok(reported0), Ok(reported1)) => match side_of(info, pools) {
            None => Err(PairError::InvalidAsset),
            Some(side) => Ok(
                if side == 0 {
                    (reported0, reported1)
                } else {
                    (reported1, reported0)
                },
            ),
        },
        (Err(e), _) => Err(e),
        (_, Err(e)) => Err(e),
    }
}

/// The reserves as an observer may see them, around the asset `info`: first
/// the reported reserve of that asset, then the reported reserve of the other
/// side. Needs no settings, so a wrong asset shows before any are asked for.
pub fn reported_reserves(pools: &[Asset; 2], info: &AssetInfo, random_number: u64) -> (r: Result<
    (u128, u128),
    PairError,
>)
    ensures
        r == reported_reserves_result(*pools, *info, random_number),
{
    let reported0 = obfuscate_amount(pools[0].amount, random_number)?;
    let reported1 = obfuscate_amount(pools[1].amount, random_number)?;
    match select_side(info, pools) {
        Some(0) => Ok((reported0, reported1)),
        Some(_) => Ok((reported1, reported0)),
        None => Err(PairError::InvalidAsset),
    }
}

/// What [`query_simulation`] returns: the swap priced on the reported
/// reserves around the offered asset.
pub open spec fn query_simulation_result(
    pools: [Asset; 2],
    offer_asset: Asset,
    random_number: u64,
    commission_rate_nom: u128,
    commission_rate_denom: u128,
) -> Result<SimulationResponse, PairError> {
    match reported_reserves_result(pools, offer_asset.info, random_number) {
        Err(e) => Err(e),
        Ok(reserves) => match swap_result(
            reserves.0,
            reserves.1,
            offer_asset.amount,
            commission_rate_nom,
            commission_rate_denom,
        ) {
            Ok(amounts) => Ok(
                SimulationResponse {
                    return_amount: amounts.0,
                    spread_amount: amounts.1,
                    commission_amount: amounts.2,
                },
            ),
            Err(e) => Err(e),
        },
    }
}

/// Prices a swap of `offer_asset` for an observer: as [`compute_swap`] would
/// on the reserves that [`query_pool`] reports under the same draw. The true
/// reserves are only read.
pub fn query_simulation(
    pools: &[Asset; 2],
    offer_asset: &Asset,
    random_number: u64,
    commission_rate_nom: u128,
    commission_rate_denom: u128,
) -> (r: Result<SimulationResponse, PairError>)
    ensures
        r == query_simulation_result(
            *pools,
            *offer_asset,
            random_number,
            commission_rate_nom,
            commission_rate_denom,
        ),
{
    let (offer_pool, ask_pool) = reported_reserves(pools, &offer_asset.info, random_number)?;
    let (return_amount, spread_amount, commission_amount) = compute_swap(
        offer_pool,
        ask_pool,
        offer_asset.amount,
        commission_rate_nom,
        commission_rate_denom,
    )?;
    Ok(SimulationResponse { return_amount, spread_amount, commission_amount })
}

/// What [`query_reverse_simulation`] returns: the offer quoted on the
/// reported reserves around the asked asset.
pub open spec fn query_reverse_simulation_result(
    pools: [Asset; 2],
    ask_asset: Asset,
    random_number: u64,
    commission_rate_nom: u128,
    commission_rate_denom: u128,
) -> Result<ReverseSimulationResponse, PairError> {
    match reported_reserves_result(pools, ask_asset.info, random_number) {
        Err(e) => Err(e),
        Ok(reserves) => match offer_amount_result(
            reserves.1,
            reserves.0,
            ask_asset.amount,
            commission_rate_nom,
            commission_rate_denom,
        ) {
            Ok(amounts) => Ok(
                ReverseSimulationResponse {
                    offer_amount: amounts.0,
                    spread_amount: amounts.1,
                    commission_amount: amounts.2,
                },
            ),
            Err(e) => Err(e),
        },
    }
}

/// Quotes, for an observer, the offer that returns `ask_asset`: as
/// [`compute_offer_amount`] would on the reserves that [`query_pool`] reports
/// under the same draw.
pub fn query_reverse_simulation(
    pools: &[Asset; 2],
    ask_asset: &Asset,
    random_number: u64,
    commission_rate_nom: u128,
    commission_rate_denom: u128,
) -> (r: Result<ReverseSimulationResponse, PairError>)
    ensures
        r == query_reverse_simulation_result(
            *pools,
            *ask_asset,
            random_number,
            commission_rate_nom,
            commission_rate_denom,
        ),
{
    let (ask_pool, offer_pool) = reported_reserves(pools, &ask_asset.info, random_number)?;
    let (offer_amount, spread_amount, commission_amount) = compute_offer_amount(
        offer_pool,
        ask_pool,
        ask_asset.amount,
        commission_rate_nom,
        commission_rate_denom,
    )?;
    Ok(ReverseSimulationResponse { offer_amount, spread_amount, commission_amount })
}

/// What [`place_offer`] returns. The reserve of the offered asset already
/// holds the offer, so the offer is taken out of it; the offer is added to the
/// volume of its side.
pub open spec fn place_offer_result(
    pools: [Asset; 2],
    volumes: [u128; 2],
    offer_asset: Asset,
) -> Result<OfferPlacement, PairError> {
    match side_of(offer_asset.info, pools) {
        None => Err(PairError::InvalidAsset),
        Some(side) => {
            let offer_pool = if side == 0 {
                pools[0]
            } else {
                pools[1]
            };
            let ask_pool = if side == 0 {
                pools[1]
            } else {
                pools[0]
            };
            let volume = if side == 0 {
                volumes[0]
            } else {
                volumes[1]
            };
            if offer_asset.amount > offer_pool.amount {
                Err(
                    PairError::Underflow(
                        Quantity::Reserve,
                        Operands::Two(offer_pool.amount, offer_asset.amount),
                    ),
                )
            } else if volume + offer_asset.amount > u128::MAX {
                Err(
                    PairError::Overflow(
                        Quantity::Volume,
                        Operands::Two(volume, offer_asset.amount),
                    ),
                )
            } else {
                Ok(
                    OfferPlacement {
                        offer_pool: (offer_pool.amount - offer_asset.amount) as u128,
                        ask_pool,
                        asset0_volume: if side == 0 {
                            (volumes[0] + offer_asset.amount) as u128
                        } else {
                            volumes[0]
                        },
                        asset1_volume: if side == 0 {
                            volumes[1]
                        } else {
                            (volumes[1] + offer_asset.amount) as u128
                        },
                    },
                )
            }
        },
    }
}

/// Places `offer_asset` in a pool whose reserves `pools` already hold the
/// offer and whose offered volumes so far are `volumes`. Needs no settings,
/// so a wrong asset shows before any are asked for.
pub fn place_offer(pools: &[Asset; 2], volumes: [u128; 2], offer_asset: &Asset) -> (r: Result<
    OfferPlacement,
    PairError,
>)
    ensures
        r == place_offer_result(*pools, volumes, *offer_asset),
{
    let offer_amount = offer_asset.amount;
    let (offer_index, ask_index): (usize, usize) = match select_side(&offer_asset.info, pools) {
        Some(0) => (0, 1),
        Some(_) => (1, 0),
        None => {
            return Err(PairError::InvalidAsset);
        },
    };
    let offer_pool = match pools[offer_index].amount.checked_sub(offer_amount) {
        Some(amount) => amount,
        None => {
            return Err(
                PairError::Underflow(
                    Quantity::Reserve,
                    Operands::Two(pools[offer_index].amount, offer_amount),
                ),
            );
        },
    };
    let volume = match volumes[offer_index].checked_add(offer_amount) {
        Some(total) => total,
        None => {
            return Err(
                PairError::Overflow(
                    Quantity::Volume,
                    Operands::Two(volumes[offer_index], offer_amount),
                ),
            );
        },
    };
    Ok(
        OfferPlacement {
            offer_pool,
            ask_pool: pools[ask_index].clone(),
            asset0_volume: if offer_index == 0 {
                volume
            } else {
                volumes[0]
            },
            asset1_volume: if offer_index == 0 {
                volumes[1]
            } else {
                volume
            },
        },
    )
}

/// What [`try_swap`] returns: the offer is placed, the swap is priced on the
/// reserves without the offer, and the priced swap has to pass the caller's
/// guard.
pub open spec fn try_swap_result(
    pools: [Asset; 2],
    volumes: [u128; 2],
    offer_asset: Asset,
    commission_rate_nom: u128,
    commission_rate_denom: u128,
    expected_return: Option<u128>,
    belief_price: Option<Decimal>,
    max_spread: Option<Decimal>,
) -> Result<SwapOutcome, PairError> {
    match place_offer_result(pools, volumes, offer_asset) {
        Err(e) => Err(e),
        Ok(placed) => match swap_result(
            placed.offer_pool,
            placed.ask_pool.amount,
            offer_asset.amount,
            commission_rate_nom,
            commission_rate_denom,
        ) {
            Err(e) => Err(e),
            Ok(amounts) => match max_spread_result(
                belief_price,
                max_spread,
                expected_return,
                offer_asset.amount,
                amounts.0,
                amounts.2,
                amounts.1,
            ) {
                Err(e) => Err(e),
                Ok(_) => Ok(
                    SwapOutcome {
                        return_asset: Asset { info: placed.ask_pool.info, amount: amounts.0 },
                        spread_amount: amounts.1,
                        commission_amount: amounts.2,
                        asset0_volume: placed.asset0_volume,
                        asset1_volume: placed.asset1_volume,
                    },
                ),
            },
        },
    }
}

/// Decides a swap of `offer_asset` against a pool whose reserves `pools`
/// already hold the offer and whose offered volumes so far are `volumes`.
/// What it pays and what it keeps as commission together never exceed the
/// reserve of the asset it pays in.
pub fn try_swap(
    pools: &[Asset; 2],
    volumes: [u128; 2],
    offer_asset: &Asset,
    commission_rate_nom: u128,
    commission_rate_denom: u128,
    expected_return: Option<u128>,
    belief_price: Option<Decimal>,
    max_spread: Option<Decimal>,
) -> (r: Result<SwapOutcome, PairError>)
    ensures
        r == try_swap_result(
            *pools,
            volumes,
            *offer_asset,
            commission_rate_nom,
            commission_rate_denom,
            expected_return,
            belief_price,
            max_spread,
        ),
        r matches Ok(outcome) ==> (place_offer_result(*pools, volumes, *offer_asset) matches Ok(
            placed,
        ) && outcome.return_asset.amount + outcome.commission_amount <= placed.ask_pool.amount),
{
    let placed = place_offer(pools, volumes, offer_asset)?;
    let (return_amount, spread_amount, commission_amount) = compute_swap(
        placed.offer_pool,
        placed.ask_pool.amount,
        offer_asset.amount,
        commission_rate_nom,
        commission_rate_denom,
    )?;
    assert_max_spread(
        belief_price,
        max_spread,
        expected_return,
        offer_asset.amount,
        return_amount,
        commission_amount,
        spread_amount,
    )?;
    Ok(
        SwapOutcome {
            return_asset: placed.ask_pool.with_amount(return_amount),
            spread_amount,
            commission_amount,
            asset0_volume: placed.asset0_volume,
            asset1_volume: placed.asset1_volume,
        },
    )
}

/// The amount deposited of the asset `info`: that of the first of `assets`
/// that names it, `None` when neither does.
pub open spec fn deposit_of(assets: [Asset; 2], info: AssetInfo) -> Option<u128> {
    if assets[0].info.same_asset(info) {
        Some(assets[0].amount)
    } else if assets[1].info.same_asset(info) {
        Some(assets[1].amount)
    } else {
        None
    }
}

/// Finds the amount deposited of the asset `info`.
pub fn find_deposit(assets: &[Asset; 2], info: &AssetInfo) -> (r: Option<u128>)
    ensures
        r == deposit_of(*assets, *info),
{
    if assets[0].info.equal(info) {
        Some(assets[0].amount)
    } else if assets[1].info.equal(info) {
        Some(assets[1].amount)
    } else {
        None
    }
}

/// What a reserve was before a deposit reached it. A native currency has
/// arrived with the call and is already counted, so the deposit is taken out
/// again; a token is only fetched afterwards. `None` when the deposit exceeds
/// a native reserve.
pub open spec fn reserve_before(pool: Asset, deposit: u128) -> Option<u128> {
    if pool.info is NativeToken {
        if deposit > pool.amount {
            None
        } else {
            Some((pool.amount - deposit) as u128)
        }
    } else {
        Some(pool.amount)
    }
}

/// Computes [`reserve_before`].
pub fn reserve_before_deposit(pool: &Asset, deposit: u128) -> (r: Option<u128>)
    ensures
        r == reserve_before(*pool, deposit),
{
    if pool.info.is_native_token() {
        pool.amount.checked_sub(deposit)
    } else {
        Some(pool.amount)
    }
}

/// What [`place_deposit`] returns. Each pool asset must be among the
/// deposited; the reserves are taken as they were before the deposit; the
/// deposit must pass the slippage guard.
pub open spec fn place_deposit_result(
    assets: [Asset; 2],
    pools: [Asset; 2],
    slippage_tolerance: Option<Decimal>,
) -> Result<DepositPlacement, PairError> {
    match (deposit_of(assets, pools[0].info), deposit_of(assets, pools[1].info)) {
        (Some(deposit0), Some(deposit1)) => match (
            reserve_before(pools[0], deposit0),
            reserve_before(pools[1], deposit1),
        ) {
            (Some(pool0), Some(pool1)) => match slippage_tolerance_result(
                slippage_tolerance,
                [deposit0, deposit1],
                [pool0, pool1],
            ) {
                Err(e) => Err(e),
                Ok(_) => Ok(
                    DepositPlacement { deposits: [deposit0, deposit1], reserves: [pool0, pool1] },
                ),
            },
            (None, _) => Err(
                PairError::Underflow(Quantity::Reserve, Operands::Two(pools[0].amount, deposit0)),
            ),
            (_, None) => Err(
                PairError::Underflow(Quantity::Reserve, Operands::Two(pools[1].amount, deposit1)),
            ),
        },
        _ => Err(PairError::InvalidAsset),
    }
}

/// Places a deposit of `assets` in a pool that holds `pools`, and holds it
/// against the slippage guard. Needs no share supply, so a wrong asset and a
/// rejected price show before the supply is asked for.
pub fn place_deposit(
    assets: &[Asset; 2],
    pools: &[Asset; 2],
    slippage_tolerance: Option<Decimal>,
) -> (r: Result<DepositPlacement, PairError>)
    ensures
        r == place_deposit_result(*assets, *pools, slippage_tolerance),
{
    let deposit0 = match find_deposit(assets, &pools[0].info) {
        Some(amount) => amount,
        None => {
            return Err(PairError::InvalidAsset);
        },
    };
    let deposit1 = match find_deposit(assets, &pools[1].info) {
        Some(amount) => amount,
        None => {
            return Err(PairError::InvalidAsset);
        },
    };
    let pool0 = match reserve_before_deposit(&pools[0], deposit0) {
        Some(amount) => amount,
        None => {
            return Err(
                PairError::Underflow(Quantity::Reserve, Operands::Two(pools[0].amount, deposit0)),
            );
        },
    };
    let pool1 = match reserve_before_deposit(&pools[1], deposit1) {
        Some(amount) => amount,
        None => {
            return Err(
                PairError::Underflow(Quantity::Reserve, Operands::Two(pools[1].amount, deposit1)),
            );
        },
    };
    let deposits: [u128; 2] = [deposit0, deposit1];
    let reserves: [u128; 2] = [pool0, pool1];
    assert(deposits == [deposit0, deposit1] && reserves == [pool0, pool1]);
    assert_slippage_tolerance(slippage_tolerance, deposits, reserves)?;
    Ok(DepositPlacement { deposits, reserves })
}

/// What [`try_provide_liquidity`] returns: the deposit is placed; an empty
/// pool mints the initial shares, the integer square root of the product of
/// the deposits, any other the additional ones.
pub open spec fn provide_liquidity_result(
    assets: [Asset; 2],
    pools: [Asset; 2],
    slippage_tolerance: Option<Decimal>,
    total_share: u128,
) -> Result<ProvideOutcome, PairError> {
    match place_deposit_result(assets, pools, slippage_tolerance) {
        Err(e) => Err(e),
        Ok(placed) => {
            let minted = if total_share == 0 {
                Ok(floor_sqrt(placed.deposits[0] as nat * placed.deposits[1] as nat) as u128)
            } else {
                additional_shares_result(
                    placed.deposits[0],
                    placed.deposits[1],
                    placed.reserves[0],
                    placed.reserves[1],
                    total_share,
                )
            };
            match minted {
                Err(e) => Err(e),
                Ok(share) => Ok(ProvideOutcome { deposits: placed.deposits, share }),
            }
        },
    }
}

/// Decides a deposit of `assets` into a pool that holds `pools` against
/// `total_share` outstanding shares.
pub fn try_provide_liquidity(
    assets: &[Asset; 2],
    pools: &[Asset; 2],
    slippage_tolerance: Option<Decimal>,
    total_share: u128,
) -> (r: Result<ProvideOutcome, PairError>)
    ensures
        r == provide_liquidity_result(*assets, *pools, slippage_tolerance, total_share),
        total_share == 0 ==> (r matches Ok(outcome) ==> is_floor_sqrt(
            outcome.share as nat,
            outcome.deposits[0] as nat * outcome.deposits[1] as nat,
        )),
{
    let placed = place_deposit(assets, pools, slippage_tolerance)?;
    let share = if total_share == 0 {
        compute_initial_shares(placed.deposits[0], placed.deposits[1])?
    } else {
        compute_additional_shares(
            placed.deposits[0],
            placed.deposits[1],
            placed.reserves[0],
            placed.reserves[1],
            total_share,
        )?
    };
    Ok(ProvideOutcome { deposits: placed.deposits, share })
}

} // verus!
