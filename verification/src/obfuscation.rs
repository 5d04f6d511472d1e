//! Reserve obfuscation for read-only observers.
//!
//! What a query reports of the reserves and of the share supply is the true
//! figure scaled by a ratio within 0.99% of one, picked by a single random
//! draw. The draw comes from outside; nothing here keeps it, and nothing here
//! touches the true figures.

use vstd::prelude::*;

use crate::error::{Operands, PairError, Quantity};
use crate::wide::{multiply_ratio, ratio_floor};

verus! {

/// The denominator of every obfuscation ratio.
pub const OBFUSCATION_DENOM: u128 = 10_000;

/// The numerator an obfuscation draw selects: the last two decimal digits of
/// the draw, added to the denominator when the draw is even and taken from it
/// when the draw is odd.
pub open spec fn random_nom(random_number: u64) -> nat {
    if random_number % 2 == 0 {
        (OBFUSCATION_DENOM + random_number % 100) as nat
    } else {
        (OBFUSCATION_DENOM - random_number % 100) as nat
    }
}

/// What a figure is reported as under a draw, before any range check.
pub open spec fn obfuscated(amount: nat, random_number: u64) -> nat {
    ratio_floor(amount, random_nom(random_number), OBFUSCATION_DENOM as nat)
}

/// The ratio `(nom, denom)` that a draw selects. An even draw scales up, an
/// odd draw scales down, either by less than one percent.
pub fn get_random_nom_denom(random_number: u64) -> (r: (u128, u128))
    ensures
        r.0 == random_nom(random_number),
        r.1 == OBFUSCATION_DENOM,
        9901 <= r.0 <= 10099,
        random_number % 2 == 0 ==> r.0 >= OBFUSCATION_DENOM,
        random_number % 2 == 1 ==> r.0 < OBFUSCATION_DENOM,
{
    let is_plus: bool = random_number % 2 == 0;
    let nom_noise: u128 = (random_number % 100) as u128;
    let denom: u128 = OBFUSCATION_DENOM;
    let nom: u128 = if is_plus {
        denom + nom_noise
    } else {
        denom - nom_noise
    };
    proof {
        if !is_plus {
            assert(random_number % 100 != 0) by (bit_vector)
                requires
                    random_number % 2 != 0,
            ;
        }
    }
    (nom, denom)
}

/// What [`obfuscate_amount`] returns.
pub open spec fn obfuscate_amount_result(amount: u128, random_number: u64) -> Result<
    u128,
    PairError,
> {
    if obfuscated(amount as nat, random_number) > u128::MAX {
        Err(
            PairError::Overflow(
                Quantity::ReportedAmount,
                Operands::Three(amount, random_nom(random_number) as u128, OBFUSCATION_DENOM),
            ),
        )
    } else {
        Ok(obfuscated(amount as nat, random_number) as u128)
    }
}

/// One figure as reported under the draw `random_number`: scaled by the
/// ratio the draw selects, multiplied first and then divided, rounded down.
/// Fails when the scaled figure is above `u128::MAX`.
pub fn obfuscate_amount(amount: u128, random_number: u64) -> (r: Result<u128, PairError>)
    ensures
        r == obfuscate_amount_result(amount, random_number),
{
    let (nom, denom) = get_random_nom_denom(random_number);
    multiply_ratio(amount, nom, denom, Quantity::ReportedAmount)
}

/// What [`obfuscate`] returns: the three figures as [`obfuscate_amount`]
/// reports them, or the failure of the first that has one.
pub open spec fn obfuscate_result(
    reserves: [u128; 2],
    total_share: u128,
    random_number: u64,
) -> Result<([u128; 2], u128), PairError> {
    match (
        obfuscate_amount_result(reserves[0], random_number),
        obfuscate_amount_result(reserves[1], random_number),
        obfuscate_amount_result(total_share, random_number),
    ) {
        (Ok(reported0), Ok(reported1), Ok(reported_share)) => Ok(
            ([reported0, reported1], reported_share),
        ),
        (Err(e), _, _) => Err(e),
        (_, Err(e), _) => Err(e),
        (_, _, Err(e)) => Err(e),
    }
}

/// The figures to report for a pool with the true `reserves` and
/// `total_share` under the draw `random_number`: each as [`obfuscate_amount`]
/// reports it. Fails when one of them does.
pub fn obfuscate(reserves: [u128; 2], total_share: u128, random_number: u64) -> (r: Result<
    ([u128; 2], u128),
    PairError,
>)
    ensures
        r == obfuscate_result(reserves, total_share, random_number),
{
    let reported0 = obfuscate_amount(reserves[0], random_number)?;
    let reported1 = obfuscate_amount(reserves[1], random_number)?;
    let reported_share = obfuscate_amount(total_share, random_number)?;
    let reported: [u128; 2] = [reported0, reported1];
    assert(reported == obfuscate_result(reserves, total_share, random_number)->Ok_0.0) by {
        assert(reported@ =~= obfuscate_result(reserves, total_share, random_number)->Ok_0.0@);
    }
    Ok((reported, reported_share))
}

/// A reported figure stays within 0.99% of the true one: at least the true
/// figure under an even draw, at most the true figure under an odd one.
pub proof fn lemma_obfuscated_bounds(amount: nat, random_number: u64)
    ensures
        ratio_floor(amount, 9901, 10000) <= obfuscated(amount, random_number) <= ratio_floor(
            amount,
            10099,
            10000,
        ),
        random_number % 2 == 0 ==> obfuscated(amount, random_number) >= amount,
        random_number % 2 == 1 ==> obfuscated(amount, random_number) <= amount,
{
    let nom: nat = random_nom(random_number);
    assert(9901 <= nom <= 10099);
    assert((amount * 9901) / 10000 <= (amount * nom) / 10000 <= (amount * 10099) / 10000)
        by (nonlinear_arith)
        requires
            9901 <= nom <= 10099,
    ;
    if random_number % 2 == 0 {
        assert((amount * nom) / 10000 >= amount) by (nonlinear_arith)
            requires
                nom >= 10000,
        ;
    } else {
        assert((amount * nom) / 10000 <= amount) by (nonlinear_arith)
            requires
                nom <= 10000,
        ;
    }
}

/// Two draws that select different ratios report a reserve of at least
/// 10000 units differently.
pub proof fn lemma_distinct_draws_distinct_reports(amount: nat, first: u64, second: u64)
    requires
        amount >= OBFUSCATION_DENOM,
        random_nom(first) != random_nom(second),
    ensures
        obfuscated(amount, first) != obfuscated(amount, second),
{
    let a: nat = random_nom(first);
    let b: nat = random_nom(second);
    if a < b {
        assert((amount * a) / 10000 < (amount * b) / 10000) by (nonlinear_arith)
            requires
                amount >= 10000,
                a < b,
        ;
    } else {
        assert((amount * b) / 10000 < (amount * a) / 10000) by (nonlinear_arith)
            requires
                amount >= 10000,
                b < a,
        ;
    }
}

} // verus!
