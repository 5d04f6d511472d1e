//! Constant-product swap pricing.
//!
//! A swap adds `offer_amount` to one reserve and takes from the other what
//! keeps the product of the reserves, rounded in whole units. A share of what
//! it takes stays in the pool as commission.

use vstd::arithmetic::div_mod::{
    lemma_div_by_multiple, lemma_div_is_ordered, lemma_div_is_ordered_by_denominator,
    lemma_fundamental_div_mod, lemma_hoist_over_denominator, lemma_mod_bound,
};
use vstd::prelude::*;

use crate::decimal::{
    decimal_subtraction, multiply_by_decimal, reverse_decimal, Decimal, DECIMAL_FRACTIONAL,
};
use crate::error::{Operands, PairError, Quantity};
use crate::wide::{
    checked_add, checked_div, checked_mul, checked_sub, lemma_product_fits,
    lemma_ratio_floor_at_most_value, ratio_floor, u256_saturating_sub, Wide,
};

verus! {

/// What is left in the ask reserve after `offer_amount` arrives: the product
/// of the reserves divided by the new offer reserve, rounded down.
pub open spec fn ask_pool_after(offer_pool: nat, ask_pool: nat, offer_amount: nat) -> nat {
    (offer_pool * ask_pool) / (offer_pool + offer_amount)
}

/// What leaves the ask reserve before the commission is taken.
pub open spec fn gross_return(offer_pool: nat, ask_pool: nat, offer_amount: nat) -> nat {
    (ask_pool - ask_pool_after(offer_pool, ask_pool, offer_amount)) as nat
}

/// What `offer_amount` would buy at the price before the trade.
pub open spec fn return_at_pool_price(offer_pool: nat, ask_pool: nat, offer_amount: nat) -> nat {
    (offer_amount * ask_pool) / offer_pool
}

/// How far the gross return falls short of the return at the pre-trade price;
/// zero when it does not.
pub open spec fn spread(offer_pool: nat, ask_pool: nat, offer_amount: nat) -> nat {
    let ideal = return_at_pool_price(offer_pool, ask_pool, offer_amount);
    let gross = gross_return(offer_pool, ask_pool, offer_amount);
    if ideal >= gross {
        (ideal - gross) as nat
    } else {
        0
    }
}

/// The commission on a gross return at the rate `nom / denom`, rounded down.
pub open spec fn commission(gross: nat, nom: nat, denom: nat) -> nat {
    (gross * nom) / denom
}

/// What [`compute_swap`] returns: `(return_amount, spread_amount,
/// commission_amount)`, or the first failure in this order: an empty reserve,
/// a zero fee denominator, a commission larger than the gross return, a spread
/// above `u128::MAX`. Each failure names the numbers it came from: the
/// reserves and the offer, or the gross return and the rate.
pub open spec fn swap_result(
    offer_pool: u128,
    ask_pool: u128,
    offer_amount: u128,
    commission_rate_nom: u128,
    commission_rate_denom: u128,
) -> Result<(u128, u128, u128), PairError> {
    let gross = gross_return(offer_pool as nat, ask_pool as nat, offer_amount as nat);
    let fee = commission(gross, commission_rate_nom as nat, commission_rate_denom as nat);
    let spread_amount = spread(offer_pool as nat, ask_pool as nat, offer_amount as nat);
    let rate = Operands::Three(gross as u128, commission_rate_nom, commission_rate_denom);
    if offer_pool == 0 || ask_pool == 0 {
        Err(
            PairError::DegenerateState(
                Quantity::ReturnAmount,
                Operands::Three(offer_pool, ask_pool, offer_amount),
            ),
        )
    } else if commission_rate_denom == 0 {
        Err(PairError::DegenerateState(Quantity::CommissionAmount, rate))
    } else if fee > gross {
        Err(PairError::Underflow(Quantity::ReturnAmount, rate))
    } else if spread_amount > u128::MAX {
        Err(
            PairError::Overflow(
                Quantity::SpreadAmount,
                Operands::Three(offer_amount, ask_pool, offer_pool),
            ),
        )
    } else {
        Ok(((gross - fee) as u128, spread_amount as u128, fee as u128))
    }
}

/// After a swap the ask reserve holds no more than before.
pub proof fn lemma_ask_pool_after_bounded(offer_pool: nat, ask_pool: nat, offer_amount: nat)
    requires
        offer_pool + offer_amount > 0,
    ensures
        ask_pool_after(offer_pool, ask_pool, offer_amount) <= ask_pool,
{
    let d: nat = offer_pool + offer_amount;
    assert((offer_pool * ask_pool) / d <= ask_pool) by (nonlinear_arith)
        requires
            d == offer_pool + offer_amount,
            d > 0,
    ;
}

/// Prices a swap of `offer_amount` into a pool whose reserves, before the
/// offer is added, are `offer_pool` and `ask_pool`, at the commission rate
/// `commission_rate_nom / commission_rate_denom`. What it pays and what it
/// keeps as commission together never exceed the ask reserve.
pub fn compute_swap(
    offer_pool: u128,
    ask_pool: u128,
    offer_amount: u128,
    commission_rate_nom: u128,
    commission_rate_denom: u128,
) -> (r: Result<(u128, u128, u128), PairError>)
    ensures
        r == swap_result(
            offer_pool,
            ask_pool,
            offer_amount,
            commission_rate_nom,
            commission_rate_denom,
        ),
        r matches Ok(amounts) ==> amounts.0 + amounts.2 <= ask_pool,
{
    let pool = Operands::Three(offer_pool, ask_pool, offer_amount);
    let price = Operands::Three(offer_amount, ask_pool, offer_pool);
    if offer_pool == 0 || ask_pool == 0 {
        return Err(PairError::DegenerateState(Quantity::ReturnAmount, pool));
    }
    proof {
        lemma_product_fits(offer_pool as nat, ask_pool as nat);
        lemma_product_fits(offer_amount as nat, ask_pool as nat);
        lemma_ask_pool_after_bounded(offer_pool as nat, ask_pool as nat, offer_amount as nat);
    }
    let offer_pool_w = Some(Wide::from_u128(offer_pool));
    let ask_pool_w = Some(Wide::from_u128(ask_pool));
    let offer_amount_w = Some(Wide::from_u128(offer_amount));

    let cp = checked_mul(offer_pool_w, ask_pool_w);
    let gross = match checked_sub(
        ask_pool_w,
        checked_div(cp, checked_add(offer_pool_w, offer_amount_w)),
    ) {
        Some(g) => g,
        None => {
            return Err(PairError::DegenerateState(Quantity::ReturnAmount, pool));
        },
    };
    let gross_amount = match gross.to_u128() {
        Some(g) => g,
        None => {
            return Err(PairError::Overflow(Quantity::ReturnAmount, pool));
        },
    };
    let ideal = match checked_div(checked_mul(offer_amount_w, ask_pool_w), offer_pool_w) {
        Some(i) => i,
        None => {
            return Err(PairError::DegenerateState(Quantity::SpreadAmount, price));
        },
    };
    let spread_amount = u256_saturating_sub(ideal, gross);

    proof {
        lemma_product_fits(gross@, commission_rate_nom as nat);
    }
    let rate = Operands::Three(gross_amount, commission_rate_nom, commission_rate_denom);
    let fee = match checked_div(
        checked_mul(Some(gross), Some(Wide::from_u128(commission_rate_nom))),
        Some(Wide::from_u128(commission_rate_denom)),
    ) {
        Some(c) => c,
        None => {
            return Err(PairError::DegenerateState(Quantity::CommissionAmount, rate));
        },
    };
    let net = match checked_sub(Some(gross), Some(fee)) {
        Some(n) => n,
        None => {
            return Err(PairError::Underflow(Quantity::ReturnAmount, rate));
        },
    };
    match (net.to_u128(), spread_amount.to_u128(), fee.to_u128()) {
        (Some(return_amount), Some(spread_part), Some(commission_amount)) => Ok(
            (return_amount, spread_part, commission_amount),
        ),
        _ => Err(PairError::Overflow(Quantity::SpreadAmount, price)),
    }
}

/// The product of the reserves once `offer_amount` has been added to the offer
/// reserve and `paid_out` has left the ask reserve.
pub open spec fn invariant_after(
    offer_pool: nat,
    ask_pool: nat,
    offer_amount: nat,
    paid_out: nat,
) -> int {
    (offer_pool + offer_amount) * (ask_pool - paid_out)
}

/// Paying out the gross return leaves the largest multiple of the new offer
/// reserve that does not exceed the product of the reserves before the swap:
/// rounding the remaining ask reserve down costs the pool the remainder of
/// that division, and nothing else.
pub proof fn lemma_invariant_after_gross_return(offer_pool: nat, ask_pool: nat, offer_amount: nat)
    requires
        offer_pool > 0,
        ask_pool > 0,
        offer_amount > 0,
    ensures
        invariant_after(
            offer_pool,
            ask_pool,
            offer_amount,
            gross_return(offer_pool, ask_pool, offer_amount),
        ) == offer_pool * ask_pool - (offer_pool * ask_pool) % (offer_pool + offer_amount),
{
    let n: int = (offer_pool + offer_amount) as int;
    let cp: int = (offer_pool * ask_pool) as int;
    let q: int = cp / n;
    lemma_ask_pool_after_bounded(offer_pool, ask_pool, offer_amount);
    lemma_fundamental_div_mod(cp, n);
    assert(gross_return(offer_pool, ask_pool, offer_amount) == ask_pool - q);
    assert(ask_pool - (ask_pool - q) == q);
}

/// The pricing invariant after a swap that pays out the return before
/// commission: the product of the reserves before the swap, less the
/// remainder that dividing it by the new offer reserve leaves. So it is kept
/// where that remainder is zero, and is smaller by the remainder where it is
/// not: the remaining ask reserve is rounded down.
pub proof fn lemma_invariant_after_swap(
    offer_pool: u128,
    ask_pool: u128,
    offer_amount: u128,
    commission_rate_nom: u128,
    commission_rate_denom: u128,
)
    requires
        offer_pool > 0,
        ask_pool > 0,
        offer_amount > 0,
        swap_result(
            offer_pool,
            ask_pool,
            offer_amount,
            commission_rate_nom,
            commission_rate_denom,
        ) is Ok,
    ensures
        ({
            let amounts = swap_result(
                offer_pool,
                ask_pool,
                offer_amount,
                commission_rate_nom,
                commission_rate_denom,
            )->Ok_0;
            let before_commission = (amounts.0 + amounts.2) as nat;
            let after = invariant_after(
                offer_pool as nat,
                ask_pool as nat,
                offer_amount as nat,
                before_commission,
            );
            let rest = (offer_pool * ask_pool) % (offer_pool + offer_amount);
            &&& before_commission == gross_return(
                offer_pool as nat,
                ask_pool as nat,
                offer_amount as nat,
            )
            &&& 0 <= rest < offer_pool + offer_amount
            &&& after == offer_pool * ask_pool - rest
        }),
{
    let gross: nat = gross_return(offer_pool as nat, ask_pool as nat, offer_amount as nat);
    let fee: nat = commission(gross, commission_rate_nom as nat, commission_rate_denom as nat);
    lemma_ask_pool_after_bounded(offer_pool as nat, ask_pool as nat, offer_amount as nat);
    assert(fee <= gross <= ask_pool);
    assert((gross - fee) as u128 + fee as u128 == gross);
    lemma_invariant_after_gross_return(offer_pool as nat, ask_pool as nat, offer_amount as nat);
    lemma_mod_bound((offer_pool * ask_pool) as int, (offer_pool + offer_amount) as int);
}

/// The pricing invariant never decreases where the product of the reserves is
/// a multiple of the new offer reserve: the product of the reserves after the
/// swap, with the return before commission paid out, is then at least the
/// product before.
pub proof fn lemma_invariant_never_decreases(
    offer_pool: u128,
    ask_pool: u128,
    offer_amount: u128,
    commission_rate_nom: u128,
    commission_rate_denom: u128,
)
    requires
        offer_pool > 0,
        ask_pool > 0,
        offer_amount > 0,
        (offer_pool * ask_pool) % (offer_pool + offer_amount) == 0,
        swap_result(
            offer_pool,
            ask_pool,
            offer_amount,
            commission_rate_nom,
            commission_rate_denom,
        ) is Ok,
    ensures
        ({
            let amounts = swap_result(
                offer_pool,
                ask_pool,
                offer_amount,
                commission_rate_nom,
                commission_rate_denom,
            )->Ok_0;
            invariant_after(
                offer_pool as nat,
                ask_pool as nat,
                offer_amount as nat,
                (amounts.0 + amounts.2) as nat,
            ) >= offer_pool * ask_pool
        }),
{
    lemma_invariant_after_swap(
        offer_pool,
        ask_pool,
        offer_amount,
        commission_rate_nom,
        commission_rate_denom,
    );
}

/// A swap that keeps a commission of at least one unit does not decrease the
/// pricing invariant: the product of the reserves after the offer has come in
/// and the net return has gone out is at least the product before.
pub proof fn lemma_invariant_with_commission(
    offer_pool: u128,
    ask_pool: u128,
    offer_amount: u128,
    commission_rate_nom: u128,
    commission_rate_denom: u128,
)
    requires
        offer_pool > 0,
        ask_pool > 0,
        offer_amount > 0,
        swap_result(
            offer_pool,
            ask_pool,
            offer_amount,
            commission_rate_nom,
            commission_rate_denom,
        ) matches Ok(amounts) && amounts.2 >= 1,
    ensures
        invariant_after(
            offer_pool as nat,
            ask_pool as nat,
            offer_amount as nat,
            swap_result(
                offer_pool,
                ask_pool,
                offer_amount,
                commission_rate_nom,
                commission_rate_denom,
            )->Ok_0.0 as nat,
        ) >= offer_pool * ask_pool,
{
    let op: nat = offer_pool as nat;
    let ap: nat = ask_pool as nat;
    let oa: nat = offer_amount as nat;
    let n: int = (op + oa) as int;
    let cp: int = (op * ap) as int;
    let gross: int = gross_return(op, ap, oa) as int;
    let fee: int = commission(
        gross as nat,
        commission_rate_nom as nat,
        commission_rate_denom as nat,
    ) as int;
    lemma_invariant_after_gross_return(op, ap, oa);
    lemma_mod_bound(cp, n);
    lemma_ask_pool_after_bounded(op, ap, oa);
    assert(n * (ap - (gross - fee)) == n * (ap - gross) + n * fee) by (nonlinear_arith);
    assert(n * fee >= n) by (nonlinear_arith)
        requires
            fee >= 1,
            n > 0,
    ;
}

/// The commission rate `nom / denom` in units of 10^-18, rounded down.
pub open spec fn fee_rate(nom: nat, denom: nat) -> nat {
    ratio_floor(nom, DECIMAL_FRACTIONAL as nat, denom)
}

/// `1 / (1 - fee)` in units of 10^-18, rounded down: the rate that turns an
/// amount after commission back into the amount before it.
pub open spec fn gross_up_rate(nom: nat, denom: nat) -> nat {
    ratio_floor(
        DECIMAL_FRACTIONAL as nat,
        DECIMAL_FRACTIONAL as nat,
        (DECIMAL_FRACTIONAL - fee_rate(nom, denom)) as nat,
    )
}

/// What has to leave the ask reserve so that `ask_amount` is left after the
/// commission.
pub open spec fn return_before_commission(ask_amount: nat, nom: nat, denom: nat) -> nat {
    ratio_floor(ask_amount, gross_up_rate(nom, denom), DECIMAL_FRACTIONAL as nat)
}

/// The offer that moves the ask reserve down by `before`: the product of the
/// reserves divided by what is left of the ask reserve, less the offer
/// reserve.
pub open spec fn required_offer(offer_pool: nat, ask_pool: nat, before: nat) -> nat {
    ((offer_pool * ask_pool) / ((ask_pool - before) as nat) - offer_pool) as nat
}

/// The price of the offer asset in the ask asset before the trade, in units
/// of 10^-18.
pub open spec fn pool_price(offer_pool: nat, ask_pool: nat) -> nat {
    ratio_floor(ask_pool, DECIMAL_FRACTIONAL as nat, offer_pool)
}

/// What `offer` would buy at [`pool_price`].
pub open spec fn offer_at_pool_price(offer_pool: nat, ask_pool: nat, offer: nat) -> nat {
    ratio_floor(offer, pool_price(offer_pool, ask_pool), DECIMAL_FRACTIONAL as nat)
}

/// What [`compute_offer_amount`] returns: `(offer_amount, spread_amount,
/// commission_amount)`, or the first failure in the order of the conditions
/// below, each with the numbers of the step that failed.
pub open spec fn offer_amount_result(
    offer_pool: u128,
    ask_pool: u128,
    ask_amount: u128,
    commission_rate_nom: u128,
    commission_rate_denom: u128,
) -> Result<(u128, u128, u128), PairError> {
    let fee = fee_rate(commission_rate_nom as nat, commission_rate_denom as nat);
    let before = return_before_commission(
        ask_amount as nat,
        commission_rate_nom as nat,
        commission_rate_denom as nat,
    );
    let offer = required_offer(offer_pool as nat, ask_pool as nat, before);
    let price = pool_price(offer_pool as nat, ask_pool as nat);
    let ideal = offer_at_pool_price(offer_pool as nat, ask_pool as nat, offer);
    let one = DECIMAL_FRACTIONAL;
    let fee_ratio = Operands::Three(commission_rate_nom, one, commission_rate_denom);
    let gross_up = gross_up_rate(commission_rate_nom as nat, commission_rate_denom as nat);
    if offer_pool == 0 || ask_pool == 0 {
        Err(
            PairError::DegenerateState(
                Quantity::OfferAmount,
                Operands::Three(offer_pool, ask_pool, ask_amount),
            ),
        )
    } else if commission_rate_denom == 0 {
        Err(PairError::DegenerateState(Quantity::Rate, fee_ratio))
    } else if fee > u128::MAX {
        Err(PairError::Overflow(Quantity::Rate, fee_ratio))
    } else if fee > one {
        Err(PairError::Underflow(Quantity::Rate, Operands::Two(one, fee as u128)))
    } else if fee == one {
        Err(PairError::DegenerateState(Quantity::Rate, Operands::Three(one, one, 0)))
    } else if before > u128::MAX {
        Err(
            PairError::Overflow(
                Quantity::ReturnAmount,
                Operands::Three(ask_amount, gross_up as u128, one),
            ),
        )
    } else if before > ask_pool {
        Err(PairError::Underflow(Quantity::Reserve, Operands::Two(ask_pool, before as u128)))
    } else if before == ask_pool {
        Err(
            PairError::DegenerateState(
                Quantity::OfferAmount,
                Operands::Three(offer_pool, ask_pool, 0),
            ),
        )
    } else if offer > u128::MAX {
        Err(
            PairError::Overflow(
                Quantity::OfferAmount,
                Operands::Three(offer_pool, ask_pool, (ask_pool - before) as u128),
            ),
        )
    } else if price > u128::MAX {
        Err(PairError::Overflow(Quantity::Rate, Operands::Three(ask_pool, one, offer_pool)))
    } else if ideal > u128::MAX {
        Err(
            PairError::Overflow(
                Quantity::SpreadAmount,
                Operands::Three(offer as u128, price as u128, one),
            ),
        )
    } else {
        Ok(
            (
                offer as u128,
                (if ideal >= before {
                    ideal - before
                } else {
                    0
                }) as u128,
                ratio_floor(before, fee, DECIMAL_FRACTIONAL as nat) as u128,
            ),
        )
    }
}

/// Dividing the product of the reserves by no more than the ask reserve gives
/// at least the offer reserve.
pub proof fn lemma_offer_pool_after_at_least(offer_pool: nat, ask_pool: nat, remaining: nat)
    requires
        0 < remaining <= ask_pool,
    ensures
        (offer_pool * ask_pool) / remaining >= offer_pool,
{
    assert((offer_pool * ask_pool) / remaining >= offer_pool) by (nonlinear_arith)
        requires
            0 < remaining <= ask_pool,
    ;
}

/// Quotes the offer needed to receive `ask_amount` after commission from a
/// pool with reserves `offer_pool` and `ask_pool`: the inverse of
/// [`compute_swap`], with the commission undone in fixed-point rates.
pub fn compute_offer_amount(
    offer_pool: u128,
    ask_pool: u128,
    ask_amount: u128,
    commission_rate_nom: u128,
    commission_rate_denom: u128,
) -> (r: Result<(u128, u128, u128), PairError>)
    ensures
        r == offer_amount_result(
            offer_pool,
            ask_pool,
            ask_amount,
            commission_rate_nom,
            commission_rate_denom,
        ),
{
    if offer_pool == 0 || ask_pool == 0 {
        return Err(
            PairError::DegenerateState(
                Quantity::OfferAmount,
                Operands::Three(offer_pool, ask_pool, ask_amount),
            ),
        );
    }
    let commission_rate = Decimal::from_ratio(commission_rate_nom, commission_rate_denom)?;
    let one_minus_commission = decimal_subtraction(Decimal::one(), commission_rate)?;
    let gross_up = reverse_decimal(one_minus_commission)?;
    let before_commission_deduction = multiply_by_decimal(
        ask_amount,
        gross_up,
        Quantity::ReturnAmount,
    )?;
    if before_commission_deduction > ask_pool {
        return Err(
            PairError::Underflow(
                Quantity::Reserve,
                Operands::Two(ask_pool, before_commission_deduction),
            ),
        );
    }
    let remaining: u128 = ask_pool - before_commission_deduction;
    let division = Operands::Three(offer_pool, ask_pool, remaining);
    proof {
        lemma_product_fits(offer_pool as nat, ask_pool as nat);
        if remaining > 0 {
            lemma_offer_pool_after_at_least(offer_pool as nat, ask_pool as nat, remaining as nat);
        }
    }
    let offer_pool_w = Some(Wide::from_u128(offer_pool));
    let cp = checked_mul(offer_pool_w, Some(Wide::from_u128(ask_pool)));
    let offer_pool_after = match checked_div(cp, Some(Wide::from_u128(remaining))) {
        Some(p) => p,
        None => {
            return Err(PairError::DegenerateState(Quantity::OfferAmount, division));
        },
    };
    let offer = match checked_sub(Some(offer_pool_after), offer_pool_w) {
        Some(o) => o,
        None => {
            return Err(PairError::Underflow(Quantity::OfferAmount, division));
        },
    };
    let offer_amount = match offer.to_u128() {
        Some(o) => o,
        None => {
            return Err(PairError::Overflow(Quantity::OfferAmount, division));
        },
    };
    let price = Decimal::from_ratio(ask_pool, offer_pool)?;
    let ideal = multiply_by_decimal(offer_amount, price, Quantity::SpreadAmount)?;
    let spread_amount: u128 = if ideal >= before_commission_deduction {
        ideal - before_commission_deduction
    } else {
        0
    };
    proof {
        lemma_ratio_floor_at_most_value(
            before_commission_deduction as nat,
            commission_rate.atomics as nat,
            DECIMAL_FRACTIONAL as nat,
        );
    }
    let commission_amount = multiply_by_decimal(
        before_commission_deduction,
        commission_rate,
        Quantity::CommissionAmount,
    )?;
    Ok((offer_amount, spread_amount, commission_amount))
}

/// Without a commission nothing has to be undone: the amount before
/// commission is the amount asked for.
pub proof fn lemma_no_commission_no_gross_up(ask_amount: nat, denom: nat)
    requires
        denom > 0,
    ensures
        fee_rate(0, denom) == 0,
        gross_up_rate(0, denom) == DECIMAL_FRACTIONAL,
        return_before_commission(ask_amount, 0, denom) == ask_amount,
{
    assert(0nat * (DECIMAL_FRACTIONAL as nat) == 0);
    assert(0int / (denom as int) == 0) by (nonlinear_arith)
        requires
            denom > 0,
    ;
    assert(fee_rate(0, denom) == 0);
    lemma_div_by_multiple(DECIMAL_FRACTIONAL as int, DECIMAL_FRACTIONAL as int);
    assert(gross_up_rate(0, denom) == DECIMAL_FRACTIONAL);
    lemma_div_by_multiple(ask_amount as int, DECIMAL_FRACTIONAL as int);
}

/// How far the amount before commission that a quote for `net_return` works
/// back to falls short of the gross return of the swap; negative where the
/// fixed-point gross-up overshoots it.
pub open spec fn gross_up_shortfall(
    offer_pool: nat,
    ask_pool: nat,
    offer_amount: nat,
    net_return: nat,
    nom: nat,
    denom: nat,
) -> int {
    gross_return(offer_pool, ask_pool, offer_amount) - return_before_commission(
        net_return,
        nom,
        denom,
    )
}

/// Swapping and then quoting the offer for what the swap returned gives back
/// the offer up to two roundings: the remainder that the swap's division left,
/// and the shortfall of the quote's gross-up against the gross return. For
/// every swap whose quote succeeds, the quote leaves in the ask reserve what
/// the swap left plus the shortfall, and differs from the offer by exactly
/// the remainder less the shortfall's worth of the new offer reserve, counted
/// in units of what it leaves and rounded down. So a gross-up that does not
/// fall short never quotes less than was offered, and one that falls short
/// quotes at most the remainder's worth more and at most the shortfall's
/// worth, and one unit, less.
pub proof fn lemma_offer_round_trip(
    offer_pool: u128,
    ask_pool: u128,
    offer_amount: u128,
    commission_rate_nom: u128,
    commission_rate_denom: u128,
)
    requires
        offer_pool > 0,
        ask_pool > 0,
        offer_amount > 0,
        swap_result(
            offer_pool,
            ask_pool,
            offer_amount,
            commission_rate_nom,
            commission_rate_denom,
        ) matches Ok(amounts) && offer_amount_result(
            offer_pool,
            ask_pool,
            amounts.0,
            commission_rate_nom,
            commission_rate_denom,
        ) is Ok,
    ensures
        ({
            let amounts = swap_result(
                offer_pool,
                ask_pool,
                offer_amount,
                commission_rate_nom,
                commission_rate_denom,
            )->Ok_0;
            let quote = offer_amount_result(
                offer_pool,
                ask_pool,
                amounts.0,
                commission_rate_nom,
                commission_rate_denom,
            )->Ok_0;
            let after = ask_pool_after(offer_pool as nat, ask_pool as nat, offer_amount as nat);
            let rest = (offer_pool * ask_pool) % (offer_pool + offer_amount);
            let shortfall = gross_up_shortfall(
                offer_pool as nat,
                ask_pool as nat,
                offer_amount as nat,
                amounts.0 as nat,
                commission_rate_nom as nat,
                commission_rate_denom as nat,
            );
            let remaining = after + shortfall;
            let worth = (offer_pool + offer_amount) * shortfall;
            &&& remaining > 0
            &&& quote.0 - offer_amount == (rest - worth) / remaining
            &&& shortfall <= 0 ==> quote.0 >= offer_amount
            &&& shortfall >= 0 ==> quote.0 <= offer_amount + rest / remaining
            &&& shortfall >= 0 ==> quote.0 + worth / remaining + 1 >= offer_amount
        }),
{
    let op: nat = offer_pool as nat;
    let ap: nat = ask_pool as nat;
    let oa: nat = offer_amount as nat;
    let n: int = (op + oa) as int;
    let cp: int = (op * ap) as int;
    let q: int = cp / n;
    let rest: int = cp % n;
    let amounts = swap_result(
        offer_pool,
        ask_pool,
        offer_amount,
        commission_rate_nom,
        commission_rate_denom,
    )->Ok_0;
    let quote = offer_amount_result(
        offer_pool,
        ask_pool,
        amounts.0,
        commission_rate_nom,
        commission_rate_denom,
    )->Ok_0;
    let before: int = return_before_commission(
        amounts.0 as nat,
        commission_rate_nom as nat,
        commission_rate_denom as nat,
    ) as int;
    let shortfall: int = gross_up_shortfall(
        op,
        ap,
        oa,
        amounts.0 as nat,
        commission_rate_nom as nat,
        commission_rate_denom as nat,
    );
    let m: int = ap - before;
    let worth: int = n * shortfall;
    lemma_ask_pool_after_bounded(op, ap, oa);
    lemma_fundamental_div_mod(cp, n);
    lemma_mod_bound(cp, n);
    assert(gross_return(op, ap, oa) == ap - q);
    assert(0 < m <= ap);
    assert(m == q + shortfall);
    lemma_offer_pool_after_at_least(op, ap, m as nat);
    assert(quote.0 == cp / m - op);
    // cp / m == n + (rest - worth) / m
    lemma_hoist_over_denominator(rest - worth, n, m as nat);
    assert(rest - worth + n * m == cp) by (nonlinear_arith)
        requires
            cp == n * q + rest,
            m == q + shortfall,
            worth == n * shortfall,
    ;
    assert(cp / m == n + (rest - worth) / m);
    if shortfall <= 0 {
        assert(worth <= 0) by (nonlinear_arith)
            requires
                worth == n * shortfall,
                n > 0,
                shortfall <= 0,
        ;
        lemma_div_is_ordered(0, rest - worth, m);
        assert(0int / m == 0) by (nonlinear_arith)
            requires
                m > 0,
        ;
    }
    if shortfall >= 0 {
        assert(worth >= 0) by (nonlinear_arith)
            requires
                worth == n * shortfall,
                n > 0,
                shortfall >= 0,
        ;
        lemma_div_is_ordered(rest - worth, rest, m);
        lemma_div_is_ordered(-worth, rest - worth, m);
        lemma_fundamental_div_mod(worth, m);
        lemma_mod_bound(worth, m);
        assert((-worth) / m >= -(worth / m) - 1) by (nonlinear_arith)
            requires
                m > 0,
                worth == m * (worth / m) + worth % m,
                0 <= worth % m < m,
        ;
    }
}

/// The round trip where the quote undoes the commission exactly, as it does
/// without a commission: the quote is never below the original offer; it
/// exceeds it by the remainder that the swap's division left, counted in
/// units of the remaining ask reserve; it is within one unit exactly when that
/// remainder is less than twice the remaining ask reserve; and offering the
/// quote instead buys the same gross return.
pub proof fn lemma_offer_round_trip_exact_gross_up(
    offer_pool: u128,
    ask_pool: u128,
    offer_amount: u128,
    commission_rate_nom: u128,
    commission_rate_denom: u128,
)
    requires
        offer_pool > 0,
        ask_pool > 0,
        offer_amount > 0,
        swap_result(
            offer_pool,
            ask_pool,
            offer_amount,
            commission_rate_nom,
            commission_rate_denom,
        ) matches Ok(amounts) && offer_amount_result(
            offer_pool,
            ask_pool,
            amounts.0,
            commission_rate_nom,
            commission_rate_denom,
        ) is Ok && return_before_commission(
            amounts.0 as nat,
            commission_rate_nom as nat,
            commission_rate_denom as nat,
        ) == gross_return(offer_pool as nat, ask_pool as nat, offer_amount as nat),
    ensures
        ({
            let amounts = swap_result(
                offer_pool,
                ask_pool,
                offer_amount,
                commission_rate_nom,
                commission_rate_denom,
            )->Ok_0;
            let quote = offer_amount_result(
                offer_pool,
                ask_pool,
                amounts.0,
                commission_rate_nom,
                commission_rate_denom,
            )->Ok_0;
            let after = ask_pool_after(offer_pool as nat, ask_pool as nat, offer_amount as nat);
            let rest = (offer_pool * ask_pool) % (offer_pool + offer_amount);
            &&& after > 0
            &&& quote.0 >= offer_amount
            &&& quote.0 - offer_amount == rest / (after as int)
            &&& quote.0 - offer_amount <= 1 <==> rest < 2 * after
            &&& gross_return(offer_pool as nat, ask_pool as nat, quote.0 as nat) == gross_return(
                offer_pool as nat,
                ask_pool as nat,
                offer_amount as nat,
            )
        }),
{
    let op: nat = offer_pool as nat;
    let ap: nat = ask_pool as nat;
    let oa: nat = offer_amount as nat;
    let n: int = (op + oa) as int;
    let cp: int = (op * ap) as int;
    let q: int = cp / n;
    let rest: int = cp % n;
    let amounts = swap_result(
        offer_pool,
        ask_pool,
        offer_amount,
        commission_rate_nom,
        commission_rate_denom,
    )->Ok_0;
    let quote = offer_amount_result(
        offer_pool,
        ask_pool,
        amounts.0,
        commission_rate_nom,
        commission_rate_denom,
    )->Ok_0;
    lemma_ask_pool_after_bounded(op, ap, oa);
    lemma_fundamental_div_mod(cp, n);
    lemma_mod_bound(cp, n);
    assert(gross_return(op, ap, oa) == ap - q);
    assert(q > 0);
    assert((ap - (ap - q)) as nat == q as nat);
    lemma_offer_pool_after_at_least(op, ap, q as nat);
    assert(quote.0 == cp / q - op);
    // cp / q == n + rest / q
    lemma_hoist_over_denominator(rest, n, q as nat);
    assert(rest + n * q == cp) by (nonlinear_arith)
        requires
            cp == n * q + rest,
    ;
    let m: int = cp / q;
    assert(m == n + rest / q);
    assert(rest / q >= 0) by (nonlinear_arith)
        requires
            rest >= 0,
            q > 0,
    ;
    assert(rest / q <= 1 <==> rest < 2 * q) by (nonlinear_arith)
        requires
            rest >= 0,
            q > 0,
    ;
    // offering the quote leaves the same ask reserve
    assert(op + quote.0 == m);
    lemma_fundamental_div_mod(cp, q);
    lemma_mod_bound(cp, q);
    assert(cp / m >= q) by (nonlinear_arith)
        requires
            m > 0,
            q > 0,
            cp == q * m + cp % q,
            cp % q >= 0,
    ;
    lemma_div_is_ordered_by_denominator(cp, n, m);
    assert(cp / m == q);
    assert(ask_pool_after(op, ap, quote.0 as nat) == q);
}

/// The round trip without a commission: swapping and then quoting the offer
/// for what the swap returned never quotes less than was offered, and quotes
/// it exactly when the remainder that the swap's division left is less than
/// the remaining ask reserve.
pub proof fn lemma_offer_round_trip_without_commission(
    offer_pool: u128,
    ask_pool: u128,
    offer_amount: u128,
    commission_rate_denom: u128,
)
    requires
        offer_pool > 0,
        ask_pool > 0,
        offer_amount > 0,
        swap_result(offer_pool, ask_pool, offer_amount, 0, commission_rate_denom) matches Ok(
            amounts,
        ) && offer_amount_result(offer_pool, ask_pool, amounts.0, 0, commission_rate_denom) is Ok,
    ensures
        ({
            let amounts = swap_result(
                offer_pool,
                ask_pool,
                offer_amount,
                0,
                commission_rate_denom,
            )->Ok_0;
            let quote = offer_amount_result(
                offer_pool,
                ask_pool,
                amounts.0,
                0,
                commission_rate_denom,
            )->Ok_0;
            let after = ask_pool_after(offer_pool as nat, ask_pool as nat, offer_amount as nat);
            let rest = (offer_pool * ask_pool) % (offer_pool + offer_amount);
            &&& quote.0 >= offer_amount
            &&& rest < after ==> quote.0 == offer_amount
            &&& rest < 2 * after <==> quote.0 - offer_amount <= 1
        }),
{
    let op: nat = offer_pool as nat;
    let ap: nat = ask_pool as nat;
    let oa: nat = offer_amount as nat;
    let gross: nat = gross_return(op, ap, oa);
    assert(commission(gross, 0, commission_rate_denom as nat) == 0) by {
        assert(gross * 0 == 0);
        assert(0int / (commission_rate_denom as int) == 0) by (nonlinear_arith)
            requires
                commission_rate_denom > 0,
        ;
    }
    lemma_ask_pool_after_bounded(op, ap, oa);
    assert(swap_result(offer_pool, ask_pool, offer_amount, 0, commission_rate_denom)->Ok_0.0
        == gross);
    lemma_no_commission_no_gross_up(gross, commission_rate_denom as nat);
    lemma_offer_round_trip_exact_gross_up(
        offer_pool,
        ask_pool,
        offer_amount,
        0,
        commission_rate_denom,
    );
    let after: int = ask_pool_after(op, ap, oa) as int;
    let rest: int = (offer_pool * ask_pool) % (offer_pool + offer_amount);
    if rest < after {
        lemma_mod_bound((offer_pool * ask_pool) as int, (offer_pool + offer_amount) as int);
        assert(rest / after == 0) by (nonlinear_arith)
            requires
                0 <= rest < after,
        ;
    }
}

} // verus!
