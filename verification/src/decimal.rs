//! Fixed-point rates with 18 fractional digits.
//!
//! A [`Decimal`] counts units of 10^-18, so `Decimal { atomics: 10^18 }` is
//! 1.0. Every operation rounds down to a whole number of units. Products are
//! taken in 256 bits before they are divided, so an operation fails only for
//! a zero divisor or a result that does not fit 128 bits, never on the way
//! there. Rates are used for fees, tolerances and prices only; amounts of
//! assets stay integers.

use vstd::arithmetic::div_mod::lemma_div_is_ordered_by_denominator;
use vstd::prelude::*;

use crate::error::{Operands, PairError, Quantity};
use crate::wide::{multiply_ratio, multiply_ratio_result, ratio_floor};

verus! {

/// The number of atomic units in 1.0.
pub const DECIMAL_FRACTIONAL: u128 = 1_000_000_000_000_000_000;

/// A non-negative rate in units of 10^-18.
#[derive(Clone, Copy, Debug, PartialEq, Eq, Structural)]
pub struct Decimal {
    pub atomics: u128,
}

/// What [`Decimal::from_ratio`] returns.
pub open spec fn from_ratio_result(nom: u128, denom: u128) -> Result<Decimal, PairError> {
    match multiply_ratio_result(nom, DECIMAL_FRACTIONAL, denom, Quantity::Rate) {
        Ok(atomics) => Ok(Decimal { atomics }),
        Err(e) => Err(e),
    }
}

/// What [`decimal_multiplication`] returns.
pub open spec fn decimal_multiplication_result(a: Decimal, b: Decimal) -> Result<
    Decimal,
    PairError,
> {
    match multiply_ratio_result(a.atomics, b.atomics, DECIMAL_FRACTIONAL, Quantity::Rate) {
        Ok(atomics) => Ok(Decimal { atomics }),
        Err(e) => Err(e),
    }
}

/// What [`decimal_subtraction`] returns.
pub open spec fn decimal_subtraction_result(a: Decimal, b: Decimal) -> Result<Decimal, PairError> {
    if b.atomics > a.atomics {
        Err(PairError::Underflow(Quantity::Rate, Operands::Two(a.atomics, b.atomics)))
    } else {
        Ok(Decimal { atomics: (a.atomics - b.atomics) as u128 })
    }
}

/// What [`reverse_decimal`] returns.
pub open spec fn reverse_decimal_result(d: Decimal) -> Result<Decimal, PairError> {
    if d.atomics == 0 {
        Err(
            PairError::DegenerateState(
                Quantity::Rate,
                Operands::Three(DECIMAL_FRACTIONAL, DECIMAL_FRACTIONAL, 0),
            ),
        )
    } else {
        Ok(
            Decimal {
                atomics: ratio_floor(
                    DECIMAL_FRACTIONAL as nat,
                    DECIMAL_FRACTIONAL as nat,
                    d.atomics as nat,
                ) as u128,
            },
        )
    }
}

/// What [`multiply_by_decimal`] returns.
pub open spec fn multiply_by_decimal_result(
    amount: u128,
    rate: Decimal,
    quantity: Quantity,
) -> Result<u128, PairError> {
    multiply_ratio_result(amount, rate.atomics, DECIMAL_FRACTIONAL, quantity)
}

/// The reciprocal of a non-zero rate is at most 10^36 atomic units, which a
/// `u128` holds.
pub proof fn lemma_reciprocal_fits(atomics: nat)
    requires
        atomics > 0,
    ensures
        ratio_floor(DECIMAL_FRACTIONAL as nat, DECIMAL_FRACTIONAL as nat, atomics) <= u128::MAX,
{
    let x: int = (DECIMAL_FRACTIONAL as nat * DECIMAL_FRACTIONAL as nat) as int;
    assert(x == 1_000_000_000_000_000_000_000_000_000_000_000_000int);
    lemma_div_is_ordered_by_denominator(x, 1, atomics as int);
}

impl Decimal {
    /// The rate 1.0.
    pub fn one() -> (r: Decimal)
        ensures
            r.atomics == DECIMAL_FRACTIONAL,
    {
        Decimal { atomics: DECIMAL_FRACTIONAL }
    }

    /// The rate 0.0.
    pub fn zero() -> (r: Decimal)
        ensures
            r.atomics == 0,
    {
        Decimal { atomics: 0 }
    }

    /// Whether the rate is 0.0.
    pub fn is_zero(&self) -> (r: bool)
        ensures
            r == (self.atomics == 0),
    {
        self.atomics == 0
    }

    /// The rate `nom / denom`, rounded down to a multiple of 10^-18. Fails for
    /// a zero `denom` and for a rate too large for 128 bits of atomic units.
    pub fn from_ratio(nom: u128, denom: u128) -> (r: Result<Decimal, PairError>)
        ensures
            r == from_ratio_result(nom, denom),
    {
        match multiply_ratio(nom, DECIMAL_FRACTIONAL, denom, Quantity::Rate) {
            Ok(atomics) => Ok(Decimal { atomics }),
            Err(e) => Err(e),
        }
    }
}

/// The product of two rates, rounded down. Fails when it is too large for 128
/// bits of atomic units.
pub fn decimal_multiplication(a: Decimal, b: Decimal) -> (r: Result<Decimal, PairError>)
    ensures
        r == decimal_multiplication_result(a, b),
{
    match multiply_ratio(a.atomics, b.atomics, DECIMAL_FRACTIONAL, Quantity::Rate) {
        Ok(atomics) => Ok(Decimal { atomics }),
        Err(e) => Err(e),
    }
}

/// `a - b`. Fails when `b` is the larger.
pub fn decimal_subtraction(a: Decimal, b: Decimal) -> (r: Result<Decimal, PairError>)
    ensures
        r == decimal_subtraction_result(a, b),
{
    if b.atomics > a.atomics {
        Err(PairError::Underflow(Quantity::Rate, Operands::Two(a.atomics, b.atomics)))
    } else {
        Ok(Decimal { atomics: a.atomics - b.atomics })
    }
}

/// `1 / d`, rounded down. Fails when `d` is zero.
pub fn reverse_decimal(d: Decimal) -> (r: Result<Decimal, PairError>)
    ensures
        r == reverse_decimal_result(d),
{
    proof {
        if d.atomics > 0 {
            lemma_reciprocal_fits(d.atomics as nat);
        }
    }
    match multiply_ratio(DECIMAL_FRACTIONAL, DECIMAL_FRACTIONAL, d.atomics, Quantity::Rate) {
        Ok(atomics) => Ok(Decimal { atomics }),
        Err(e) => Err(e),
    }
}

/// `amount * rate`, rounded down to a whole amount. Fails, as a failure of
/// computing `quantity`, when the product is above `u128::MAX`.
pub fn multiply_by_decimal(amount: u128, rate: Decimal, quantity: Quantity) -> (r: Result<
    u128,
    PairError,
>)
    ensures
        r == multiply_by_decimal_result(amount, rate, quantity),
{
    multiply_ratio(amount, rate.atomics, DECIMAL_FRACTIONAL, quantity)
}

} // verus!
