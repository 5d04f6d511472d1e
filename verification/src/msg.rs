//! What the pool's entry points answer.

use vstd::prelude::*;

use crate::asset::Asset;

verus! {

/// The reserves and the share supply as reported to an observer.
#[derive(Debug, PartialEq, Eq)]
pub struct PoolResponse {
    pub assets: [Asset; 2],
    pub total_share: u128,
}

/// The outcome of a simulated swap.
#[derive(Clone, Copy, Debug, PartialEq, Eq, Structural)]
pub struct SimulationResponse {
    pub return_amount: u128,
    pub spread_amount: u128,
    pub commission_amount: u128,
}

/// The outcome of a simulated swap towards a wanted return.
#[derive(Clone, Copy, Debug, PartialEq, Eq, Structural)]
pub struct ReverseSimulationResponse {
    pub offer_amount: u128,
    pub spread_amount: u128,
    pub commission_amount: u128,
}

/// Where an offer stands in the pool, before any price is known.
#[derive(Debug, PartialEq, Eq)]
pub struct OfferPlacement {
    /// The reserve of the offered asset without the offer.
    pub offer_pool: u128,
    /// The other side of the pool.
    pub ask_pool: Asset,
    /// The running totals of each asset offered, this offer included.
    pub asset0_volume: u128,
    pub asset1_volume: u128,
}

/// Where a deposit stands in the pool, before any share is known.
#[derive(Clone, Copy, Debug, PartialEq, Eq)]
pub struct DepositPlacement {
    /// The amount deposited of each pool asset, in the pool's order.
    pub deposits: [u128; 2],
    /// The reserves as they were before the deposit reached them.
    pub reserves: [u128; 2],
}

/// What a swap pays and what it leaves to be recorded.
#[derive(Debug, PartialEq, Eq)]
pub struct SwapOutcome {
    /// The asset and amount to send to the trader.
    pub return_asset: Asset,
    pub spread_amount: u128,
    pub commission_amount: u128,
    /// The running totals of each asset offered, this offer included.
    pub asset0_volume: u128,
    pub asset1_volume: u128,
}

/// What a deposit brings in and what it mints.
#[derive(Clone, Copy, Debug, PartialEq, Eq)]
pub struct ProvideOutcome {
    /// The amount deposited of each pool asset, in the pool's order.
    pub deposits: [u128; 2],
    /// The liquidity shares to mint for the depositor.
    pub share: u128,
}

} // verus!
