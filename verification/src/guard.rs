//! Guard rails: the bounds a caller may put on a swap or a deposit.

use vstd::prelude::*;

use crate::decimal::{
    decimal_multiplication, decimal_subtraction, multiply_by_decimal, reverse_decimal, Decimal,
    DECIMAL_FRACTIONAL,
};
use crate::error::{Operands, PairError, Quantity};
use crate::wide::{lemma_ratio_floor_at_most_value, ratio_floor};

verus! {

/// The bound a caller put on a swap, by which of the optional parameters were
/// given: an expected return takes precedence over everything else, a belief
/// price counts only together with a maximum spread.
#[derive(Clone, Copy, Debug, PartialEq, Eq, Structural)]
pub enum SpreadGuard {
    /// The return must be at least this amount.
    ExpectedReturn(u128),
    /// The return may fall short of the offer at the believed price by at
    /// most this rate.
    BeliefPrice { belief_price: Decimal, max_spread: Decimal },
    /// The spread may be at most this part of the return before spread.
    MaxSpread(Decimal),
    /// No bound.
    Unguarded,
}

/// Which guard the optional parameters of a swap select.
pub open spec fn spread_guard_of(
    belief_price: Option<Decimal>,
    max_spread: Option<Decimal>,
    expected_return: Option<u128>,
) -> SpreadGuard {
    match (expected_return, max_spread, belief_price) {
        (Some(expected), _, _) => SpreadGuard::ExpectedReturn(expected),
        (None, Some(max_spread), Some(belief_price)) => SpreadGuard::BeliefPrice {
            belief_price,
            max_spread,
        },
        (None, Some(max_spread), None) => SpreadGuard::MaxSpread(max_spread),
        (None, None, _) => SpreadGuard::Unguarded,
    }
}

/// Selects the guard from the optional parameters of a swap.
pub fn select_spread_guard(
    belief_price: Option<Decimal>,
    max_spread: Option<Decimal>,
    expected_return: Option<u128>,
) -> (r: SpreadGuard)
    ensures
        r == spread_guard_of(belief_price, max_spread, expected_return),
{
    match expected_return {
        Some(expected) => SpreadGuard::ExpectedReturn(expected),
        None => match max_spread {
            Some(max_spread) => match belief_price {
                Some(belief_price) => SpreadGuard::BeliefPrice { belief_price, max_spread },
                None => SpreadGuard::MaxSpread(max_spread),
            },
            None => SpreadGuard::Unguarded,
        },
    }
}

/// What `offer_amount` should return at `belief_price`, a price of the ask
/// asset in the offer asset: the offer times the reciprocal of the price.
pub open spec fn return_at_belief_price(offer_amount: nat, belief_price: nat) -> nat {
    ratio_floor(
        offer_amount,
        ratio_floor(DECIMAL_FRACTIONAL as nat, DECIMAL_FRACTIONAL as nat, belief_price),
        DECIMAL_FRACTIONAL as nat,
    )
}

/// The part `part / whole` in units of 10^-18, rounded down.
pub open spec fn rate_of(part: nat, whole: nat) -> nat {
    ratio_floor(part, DECIMAL_FRACTIONAL as nat, whole)
}

/// The verdict on a swap under a belief price: the return before commission
/// is held against the return at the believed price, and a shortfall of more
/// than `max_spread` of the latter is rejected.
pub open spec fn belief_price_verdict(
    belief_price: Decimal,
    max_spread: Decimal,
    offer_amount: u128,
    return_amount: u128,
    commission_amount: u128,
) -> Result<(), PairError> {
    let before_commission = return_amount + commission_amount;
    let expected = return_at_belief_price(offer_amount as nat, belief_price.atomics as nat);
    let one = DECIMAL_FRACTIONAL;
    let reciprocal = ratio_floor(one as nat, one as nat, belief_price.atomics as nat);
    if before_commission > u128::MAX {
        Err(
            PairError::Overflow(
                Quantity::ReturnAmount,
                Operands::Two(return_amount, commission_amount),
            ),
        )
    } else if belief_price.atomics == 0 {
        Err(PairError::DegenerateState(Quantity::Rate, Operands::Three(one, one, 0)))
    } else if expected > u128::MAX {
        Err(
            PairError::Overflow(
                Quantity::ReturnAmount,
                Operands::Three(offer_amount, reciprocal as u128, one),
            ),
        )
    } else if before_commission < expected && rate_of(
        (expected - before_commission) as nat,
        expected,
    ) > max_spread.atomics {
        Err(PairError::SpreadExceeded)
    } else {
        Ok(())
    }
}

/// The verdict on a swap under a maximum spread alone: the spread is held
/// against the sum of return, commission and spread, and a part of more than
/// `max_spread` is rejected.
pub open spec fn max_spread_verdict(
    max_spread: Decimal,
    return_amount: u128,
    commission_amount: u128,
    spread_amount: u128,
) -> Result<(), PairError> {
    let before_commission = return_amount + commission_amount;
    let before_spread = before_commission + spread_amount;
    if before_commission > u128::MAX {
        Err(
            PairError::Overflow(
                Quantity::ReturnAmount,
                Operands::Two(return_amount, commission_amount),
            ),
        )
    } else if before_spread > u128::MAX {
        Err(
            PairError::Overflow(
                Quantity::SpreadAmount,
                Operands::Two(before_commission as u128, spread_amount),
            ),
        )
    } else if before_spread == 0 {
        Err(
            PairError::DegenerateState(
                Quantity::Rate,
                Operands::Three(spread_amount, DECIMAL_FRACTIONAL, 0),
            ),
        )
    } else if rate_of(spread_amount as nat, before_spread as nat) > max_spread.atomics {
        Err(PairError::SpreadExceeded)
    } else {
        Ok(())
    }
}

/// What [`assert_max_spread`] returns.
pub open spec fn max_spread_result(
    belief_price: Option<Decimal>,
    max_spread: Option<Decimal>,
    expected_return: Option<u128>,
    offer_amount: u128,
    return_amount: u128,
    commission_amount: u128,
    spread_amount: u128,
) -> Result<(), PairError> {
    match spread_guard_of(belief_price, max_spread, expected_return) {
        SpreadGuard::ExpectedReturn(expected) => if return_amount < expected {
            Err(PairError::ReturnBelowExpected)
        } else {
            Ok(())
        },
        SpreadGuard::BeliefPrice { belief_price, max_spread } => belief_price_verdict(
            belief_price,
            max_spread,
            offer_amount,
            return_amount,
            commission_amount,
        ),
        SpreadGuard::MaxSpread(max_spread) => max_spread_verdict(
            max_spread,
            return_amount,
            commission_amount,
            spread_amount,
        ),
        SpreadGuard::Unguarded => Ok(()),
    }
}

/// Holds a priced swap against the caller's bound. With `expected_return`
/// only the return counts; else with `belief_price` and `max_spread` the
/// shortfall against the believed price; else with `max_spread` the spread the
/// pool computed; with none of them every swap passes.
pub fn assert_max_spread(
    belief_price: Option<Decimal>,
    max_spread: Option<Decimal>,
    expected_return: Option<u128>,
    offer_amount: u128,
    return_amount: u128,
    commission_amount: u128,
    spread_amount: u128,
) -> (r: Result<(), PairError>)
    ensures
        r == max_spread_result(
            belief_price,
            max_spread,
            expected_return,
            offer_amount,
            return_amount,
            commission_amount,
            spread_amount,
        ),
{
    match select_spread_guard(belief_price, max_spread, expected_return) {
        SpreadGuard::ExpectedReturn(expected) => {
            if return_amount < expected {
                return Err(PairError::ReturnBelowExpected);
            }
        },
        SpreadGuard::BeliefPrice { belief_price, max_spread } => {
            let before_commission = match return_amount.checked_add(commission_amount) {
                Some(sum) => sum,
                None => {
                    return Err(
                        PairError::Overflow(
                            Quantity::ReturnAmount,
                            Operands::Two(return_amount, commission_amount),
                        ),
                    );
                },
            };
            let expected = multiply_by_decimal(
                offer_amount,
                reverse_decimal(belief_price)?,
                Quantity::ReturnAmount,
            )?;
            if before_commission < expected {
                let shortfall: u128 = expected - before_commission;
                proof {
                    lemma_ratio_floor_at_most_value(
                        DECIMAL_FRACTIONAL as nat,
                        shortfall as nat,
                        expected as nat,
                    );
                    assert(DECIMAL_FRACTIONAL as nat * shortfall as nat == shortfall as nat
                        * DECIMAL_FRACTIONAL as nat) by (nonlinear_arith);
                }
                let short_rate = Decimal::from_ratio(shortfall, expected)?;
                if short_rate.atomics > max_spread.atomics {
                    return Err(PairError::SpreadExceeded);
                }
            }
        },
        SpreadGuard::MaxSpread(max_spread) => {
            let before_commission = match return_amount.checked_add(commission_amount) {
                Some(sum) => sum,
                None => {
                    return Err(
                        PairError::Overflow(
                            Quantity::ReturnAmount,
                            Operands::Two(return_amount, commission_amount),
                        ),
                    );
                },
            };
            let before_spread = match before_commission.checked_add(spread_amount) {
                Some(sum) => sum,
                None => {
                    return Err(
                        PairError::Overflow(
                            Quantity::SpreadAmount,
                            Operands::Two(before_commission, spread_amount),
                        ),
                    );
                },
            };
            proof {
                if before_spread > 0 {
                    lemma_ratio_floor_at_most_value(
                        DECIMAL_FRACTIONAL as nat,
                        spread_amount as nat,
                        before_spread as nat,
                    );
                    assert(DECIMAL_FRACTIONAL as nat * spread_amount as nat == spread_amount as nat
                        * DECIMAL_FRACTIONAL as nat) by (nonlinear_arith);
                }
            }
            let spread_rate = Decimal::from_ratio(spread_amount, before_spread)?;
            if spread_rate.atomics > max_spread.atomics {
                return Err(PairError::SpreadExceeded);
            }
        },
        SpreadGuard::Unguarded => {},
    }
    Ok(())
}

/// Whether a deposit of `deposit_a` against `deposit_b`, with its price
/// lowered to the part `keep` of itself, still prices the first asset above
/// the pool's `pool_a` against `pool_b`; or the failure of computing either
/// price.
pub open spec fn price_exceeds_result(
    deposit_a: u128,
    deposit_b: u128,
    pool_a: u128,
    pool_b: u128,
    keep: Decimal,
) -> Result<bool, PairError> {
    let one = DECIMAL_FRACTIONAL;
    let deposit_price = rate_of(deposit_a as nat, deposit_b as nat);
    let lowered = ratio_floor(deposit_price, keep.atomics as nat, one as nat);
    let pool_price = rate_of(pool_a as nat, pool_b as nat);
    if deposit_b == 0 {
        Err(PairError::DegenerateState(Quantity::Rate, Operands::Three(deposit_a, one, deposit_b)))
    } else if deposit_price > u128::MAX {
        Err(PairError::Overflow(Quantity::Rate, Operands::Three(deposit_a, one, deposit_b)))
    } else if lowered > u128::MAX {
        Err(
            PairError::Overflow(
                Quantity::Rate,
                Operands::Three(deposit_price as u128, keep.atomics, one),
            ),
        )
    } else if pool_b == 0 {
        Err(PairError::DegenerateState(Quantity::Rate, Operands::Three(pool_a, one, pool_b)))
    } else if pool_price > u128::MAX {
        Err(PairError::Overflow(Quantity::Rate, Operands::Three(pool_a, one, pool_b)))
    } else {
        Ok(lowered > pool_price)
    }
}

/// Compares a deposit's price, lowered to the part `keep` of itself, with the
/// pool's price.
pub fn price_exceeds(
    deposit_a: u128,
    deposit_b: u128,
    pool_a: u128,
    pool_b: u128,
    keep: Decimal,
) -> (r: Result<bool, PairError>)
    ensures
        r == price_exceeds_result(deposit_a, deposit_b, pool_a, pool_b, keep),
{
    let lowered = decimal_multiplication(Decimal::from_ratio(deposit_a, deposit_b)?, keep)?;
    let pool_price = Decimal::from_ratio(pool_a, pool_b)?;
    Ok(lowered.atomics > pool_price.atomics)
}

/// What [`assert_slippage_tolerance`] returns.
pub open spec fn slippage_tolerance_result(
    slippage_tolerance: Option<Decimal>,
    deposits: [u128; 2],
    pools: [u128; 2],
) -> Result<(), PairError> {
    match slippage_tolerance {
        None => Ok(()),
        Some(tolerance) => if tolerance.atomics > DECIMAL_FRACTIONAL {
            Err(
                PairError::Underflow(
                    Quantity::Rate,
                    Operands::Two(DECIMAL_FRACTIONAL, tolerance.atomics),
                ),
            )
        } else {
            let keep = Decimal { atomics: (DECIMAL_FRACTIONAL - tolerance.atomics) as u128 };
            match price_exceeds_result(deposits[0], deposits[1], pools[0], pools[1], keep) {
                Err(e) => Err(e),
                Ok(true) => Err(PairError::SlippageExceeded),
                Ok(false) => match price_exceeds_result(
                    deposits[1],
                    deposits[0],
                    pools[1],
                    pools[0],
                    keep,
                ) {
                    Err(e) => Err(e),
                    Ok(true) => Err(PairError::SlippageExceeded),
                    Ok(false) => Ok(()),
                },
            }
        },
    }
}

/// Holds a deposit against the pool's price. With a tolerance, the deposit is
/// rejected when the price it implies for either asset, lowered by the
/// tolerance, is still above the pool's price for that asset. Without one
/// every deposit passes.
pub fn assert_slippage_tolerance(
    slippage_tolerance: Option<Decimal>,
    deposits: [u128; 2],
    pools: [u128; 2],
) -> (r: Result<(), PairError>)
    ensures
        r == slippage_tolerance_result(slippage_tolerance, deposits, pools),
{
    if let Some(tolerance) = slippage_tolerance {
        let one_minus_slippage_tolerance = decimal_subtraction(Decimal::one(), tolerance)?;
        let keep = one_minus_slippage_tolerance;
        if price_exceeds(deposits[0], deposits[1], pools[0], pools[1], keep)?
            || price_exceeds(deposits[1], deposits[0], pools[1], pools[0], keep)? {
            return Err(PairError::SlippageExceeded);
        }
    }
    Ok(())
}

} // verus!
