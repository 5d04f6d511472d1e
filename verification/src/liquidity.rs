//! Liquidity shares: what a deposit mints and what a burn pays back.

use vstd::prelude::*;

use crate::error::{Operands, PairError, Quantity};
use crate::wide::{
    checked_div, checked_mul, floor_sqrt, integer_sqrt, is_floor_sqrt, lemma_product_fits,
    lemma_ratio_floor_at_most_value, lemma_ratio_floor_monotonic, multiply_ratio,
    multiply_ratio_result, pow2_128, ratio_floor, u256_min, Wide,
};

verus! {

/// The integer square root of a product of two 128-bit numbers has 128 bits.
pub proof fn lemma_floor_sqrt_fits(r: nat, a: nat, b: nat)
    requires
        a < pow2_128(),
        b < pow2_128(),
        r * r <= a * b,
    ensures
        r < pow2_128(),
{
    lemma_product_fits(a, b);
    if r >= pow2_128() {
        assert(r * r >= pow2_128() * pow2_128()) by (nonlinear_arith)
            requires
                r >= pow2_128(),
        ;
    }
}

/// The shares minted for the first deposit into an empty pool: the integer
/// square root of the product of the two deposits. It always exists.
pub fn compute_initial_shares(deposit0: u128, deposit1: u128) -> (r: Result<u128, PairError>)
    ensures
        r == Ok::<u128, PairError>(floor_sqrt(deposit0 as nat * deposit1 as nat) as u128),
        r matches Ok(shares) && is_floor_sqrt(shares as nat, deposit0 as nat * deposit1 as nat),
{
    proof {
        lemma_product_fits(deposit0 as nat, deposit1 as nat);
    }
    let product = checked_mul(Some(Wide::from_u128(deposit0)), Some(Wide::from_u128(deposit1)));
    match integer_sqrt(product) {
        None => Err(PairError::Overflow(Quantity::Share, Operands::Two(deposit0, deposit1))),
        Some(root) => {
            proof {
                lemma_floor_sqrt_fits(root@, deposit0 as nat, deposit1 as nat);
            }
            match root.to_u128() {
                None => Err(
                    PairError::Overflow(Quantity::Share, Operands::Two(deposit0, deposit1)),
                ),
                Some(shares) => Ok(shares),
            }
        },
    }
}

/// The shares a deposit into a pool with outstanding shares earns: for each
/// side the deposit's part of the reserve applied to the supply, rounded down,
/// and of the two the smaller, so that neither side mints more than its part.
pub open spec fn additional_shares(
    deposit0: nat,
    deposit1: nat,
    pool0: nat,
    pool1: nat,
    total_share: nat,
) -> nat {
    let share0 = ratio_floor(deposit0, total_share, pool0);
    let share1 = ratio_floor(deposit1, total_share, pool1);
    if share0 <= share1 {
        share0
    } else {
        share1
    }
}

/// What [`compute_additional_shares`] returns: the shares, or the failure of
/// the first side that has an empty reserve, or of the first side when the
/// shares of both are above `u128::MAX`.
pub open spec fn additional_shares_result(
    deposit0: u128,
    deposit1: u128,
    pool0: u128,
    pool1: u128,
    total_share: u128,
) -> Result<u128, PairError> {
    let shares = additional_shares(
        deposit0 as nat,
        deposit1 as nat,
        pool0 as nat,
        pool1 as nat,
        total_share as nat,
    );
    if pool0 == 0 {
        Err(
            PairError::DegenerateState(
                Quantity::Share,
                Operands::Three(deposit0, total_share, pool0),
            ),
        )
    } else if pool1 == 0 {
        Err(
            PairError::DegenerateState(
                Quantity::Share,
                Operands::Three(deposit1, total_share, pool1),
            ),
        )
    } else if shares > u128::MAX {
        Err(PairError::Overflow(Quantity::Share, Operands::Three(deposit0, total_share, pool0)))
    } else {
        Ok(shares as u128)
    }
}

/// The shares minted for a deposit of `deposit0` and `deposit1` into a pool
/// that holds `pool0` and `pool1` against `total_share` outstanding shares.
/// Fails for an empty reserve and for a result above `u128::MAX`.
pub fn compute_additional_shares(
    deposit0: u128,
    deposit1: u128,
    pool0: u128,
    pool1: u128,
    total_share: u128,
) -> (r: Result<u128, PairError>)
    ensures
        r == additional_shares_result(deposit0, deposit1, pool0, pool1, total_share),
{
    proof {
        lemma_product_fits(deposit0 as nat, total_share as nat);
        lemma_product_fits(deposit1 as nat, total_share as nat);
    }
    let supply = Some(Wide::from_u128(total_share));
    let share0 = match checked_div(
        checked_mul(Some(Wide::from_u128(deposit0)), supply),
        Some(Wide::from_u128(pool0)),
    ) {
        Some(s) => s,
        None => {
            return Err(
                PairError::DegenerateState(
                    Quantity::Share,
                    Operands::Three(deposit0, total_share, pool0),
                ),
            );
        },
    };
    let share1 = match checked_div(
        checked_mul(Some(Wide::from_u128(deposit1)), supply),
        Some(Wide::from_u128(pool1)),
    ) {
        Some(s) => s,
        None => {
            return Err(
                PairError::DegenerateState(
                    Quantity::Share,
                    Operands::Three(deposit1, total_share, pool1),
                ),
            );
        },
    };
    match u256_min(share0, share1).to_u128() {
        Some(shares) => Ok(shares),
        None => Err(
            PairError::Overflow(Quantity::Share, Operands::Three(deposit0, total_share, pool0)),
        ),
    }
}

/// What burning `burn_amount` of `total_share` shares pays back from one
/// reserve: the burned part of the reserve, rounded down. Fails when no shares
/// are outstanding and when the result is above `u128::MAX`, which takes a
/// burn larger than the supply.
pub fn compute_withdrawal(reserve: u128, burn_amount: u128, total_share: u128) -> (r: Result<
    u128,
    PairError,
>)
    ensures
        r == multiply_ratio_result(reserve, burn_amount, total_share, Quantity::RefundAmount),
        total_share == 0 ==> r == Err::<u128, PairError>(
            PairError::DegenerateState(
                Quantity::RefundAmount,
                Operands::Three(reserve, burn_amount, total_share),
            ),
        ),
        0 < total_share && burn_amount <= total_share ==> (r matches Ok(amount) && amount
            <= reserve),
{
    proof {
        if 0 < total_share && burn_amount <= total_share {
            lemma_ratio_floor_at_most_value(
                reserve as nat,
                burn_amount as nat,
                total_share as nat,
            );
        }
    }
    multiply_ratio(reserve, burn_amount, total_share, Quantity::RefundAmount)
}

/// With the reserves and the supply fixed, the shares a deposit earns do not
/// decrease when either deposit grows.
pub proof fn lemma_additional_shares_grow(
    deposit0: nat,
    deposit1: nat,
    larger0: nat,
    larger1: nat,
    pool0: nat,
    pool1: nat,
    total_share: nat,
)
    requires
        pool0 > 0,
        pool1 > 0,
        deposit0 <= larger0,
        deposit1 <= larger1,
    ensures
        additional_shares(deposit0, deposit1, pool0, pool1, total_share) <= additional_shares(
            larger0,
            larger1,
            pool0,
            pool1,
            total_share,
        ),
{
    lemma_ratio_floor_monotonic(deposit0, larger0, total_share, pool0);
    lemma_ratio_floor_monotonic(deposit1, larger1, total_share, pool1);
}

/// A larger deposit never earns fewer shares: with the reserves and the
/// supply fixed, wherever a deposit earns shares, every deposit that is no
/// larger on either side earns shares too, and no more of them. Holding one
/// side fixed, the shares are monotonically non-decreasing in the other.
pub proof fn lemma_additional_shares_monotonic(
    deposit0: u128,
    deposit1: u128,
    larger0: u128,
    larger1: u128,
    pool0: u128,
    pool1: u128,
    total_share: u128,
)
    requires
        deposit0 <= larger0,
        deposit1 <= larger1,
        additional_shares_result(larger0, larger1, pool0, pool1, total_share) is Ok,
    ensures
        additional_shares_result(deposit0, deposit1, pool0, pool1, total_share) is Ok,
        additional_shares_result(deposit0, deposit1, pool0, pool1, total_share)->Ok_0
            <= additional_shares_result(larger0, larger1, pool0, pool1, total_share)->Ok_0,
{
    lemma_additional_shares_grow(
        deposit0 as nat,
        deposit1 as nat,
        larger0 as nat,
        larger1 as nat,
        pool0 as nat,
        pool1 as nat,
        total_share as nat,
    );
}

/// One side of a withdrawal put back into what the withdrawal left earns no
/// more shares than were burned.
proof fn lemma_redeposit_side(reserve: nat, burn_amount: nat, total_share: nat)
    requires
        reserve > 0,
        burn_amount < total_share,
    ensures
        ratio_floor(reserve, burn_amount, total_share) < reserve,
        ratio_floor(
            ratio_floor(reserve, burn_amount, total_share),
            (total_share - burn_amount) as nat,
            (reserve - ratio_floor(reserve, burn_amount, total_share)) as nat,
        ) <= burn_amount,
{
    let w: int = ((reserve * burn_amount) / total_share) as int;
    let t: int = total_share as int;
    let b: int = burn_amount as int;
    let p: int = reserve as int;
    assert(w * t <= p * b && w >= 0) by (nonlinear_arith)
        requires
            w == (p * b) / t,
            t > 0,
            p >= 0,
            b >= 0,
    ;
    assert(w < p) by (nonlinear_arith)
        requires
            w * t <= p * b,
            0 <= b < t,
            p > 0,
            w >= 0,
    ;
    assert(w * (t - b) <= b * (p - w)) by (nonlinear_arith)
        requires
            w * t <= p * b,
    ;
    assert((w * (t - b)) / (p - w) <= b) by (nonlinear_arith)
        requires
            w * (t - b) <= b * (p - w),
            p - w > 0,
    ;
}

/// A withdrawal followed by a deposit of exactly what it paid creates no
/// value: burning fewer shares than are outstanding always pays, leaves
/// something of either reserve, and depositing the two refunds into what is
/// left of the pool mints shares, no more of them than were burned.
pub proof fn lemma_withdraw_then_deposit(
    pool0: u128,
    pool1: u128,
    burn_amount: u128,
    total_share: u128,
)
    requires
        pool0 > 0,
        pool1 > 0,
        burn_amount < total_share,
    ensures
        ({
            let refund0 = multiply_ratio_result(
                pool0,
                burn_amount,
                total_share,
                Quantity::RefundAmount,
            );
            let refund1 = multiply_ratio_result(
                pool1,
                burn_amount,
                total_share,
                Quantity::RefundAmount,
            );
            &&& refund0 is Ok
            &&& refund1 is Ok
            &&& refund0->Ok_0 < pool0
            &&& refund1->Ok_0 < pool1
            &&& additional_shares_result(
                refund0->Ok_0,
                refund1->Ok_0,
                (pool0 - refund0->Ok_0) as u128,
                (pool1 - refund1->Ok_0) as u128,
                (total_share - burn_amount) as u128,
            ) matches Ok(minted) && minted <= burn_amount
        }),
{
    lemma_redeposit_side(pool0 as nat, burn_amount as nat, total_share as nat);
    lemma_redeposit_side(pool1 as nat, burn_amount as nat, total_share as nat);
}

} // verus!
