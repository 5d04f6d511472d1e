//! 256-bit unsigned integers.
//!
//! A [`Wide`] holds the four 64-bit limbs of a `primitive_types::U256`, least
//! significant first, and its view is the number they spell. The arithmetic
//! itself is done by `primitive_types`; the functions that call it are trusted
//! and say so. Everything else in this module is proved.

use vstd::arithmetic::div_mod::lemma_fundamental_div_mod_converse;
use vstd::prelude::*;

use crate::error::{Operands, PairError, Quantity};

verus! {

/// 2^64, the weight of the second limb.
pub open spec fn pow2_64() -> nat {
    0x1_0000_0000_0000_0000nat
}

/// 2^128, one more than `u128::MAX`.
pub open spec fn pow2_128() -> nat {
    0x1_0000_0000_0000_0000_0000_0000_0000_0000nat
}

/// 2^192, the weight of the fourth limb.
pub open spec fn pow2_192() -> nat {
    0x1_0000_0000_0000_0000_0000_0000_0000_0000_0000_0000_0000_0000nat
}

/// 2^256, the first number a [`Wide`] cannot hold.
pub open spec fn pow2_256() -> nat {
    0x1_0000_0000_0000_0000_0000_0000_0000_0000_0000_0000_0000_0000_0000_0000_0000_0000nat
}

/// A 256-bit unsigned integer as four limbs, least significant first.
#[derive(Clone, Copy, Debug, PartialEq, Eq, Structural)]
pub struct Wide {
    pub w0: u64,
    pub w1: u64,
    pub w2: u64,
    pub w3: u64,
}

impl View for Wide {
    type V = nat;

    open spec fn view(&self) -> nat {
        self.w0 as nat + self.w1 as nat * pow2_64() + self.w2 as nat * pow2_128() + self.w3 as nat
            * pow2_192()
    }
}

/// The view of an optional wide integer.
pub open spec fn opt_value(a: Option<Wide>) -> Option<nat> {
    match a {
        Some(x) => Some(x@),
        None => None,
    }
}

/// A number written as a low limb and the rest determines both.
proof fn lemma_split_limb(low_a: int, rest_a: int, low_b: int, rest_b: int)
    requires
        0 <= low_a < pow2_64(),
        0 <= low_b < pow2_64(),
        low_a + rest_a * pow2_64() == low_b + rest_b * pow2_64(),
    ensures
        low_a == low_b,
        rest_a == rest_b,
{
    let x: int = low_a + rest_a * pow2_64();
    lemma_fundamental_div_mod_converse(x, pow2_64() as int, rest_a, low_a);
    lemma_fundamental_div_mod_converse(x, pow2_64() as int, rest_b, low_b);
}

/// Two wide integers with the same value have the same limbs, so a contract
/// that fixes the value of a result fixes the result.
pub proof fn lemma_wide_injective(a: Wide, b: Wide)
    requires
        a@ == b@,
    ensures
        a == b,
{
    let rest1_a: int = a.w1 as int + a.w2 as int * pow2_64() + a.w3 as int * pow2_128();
    let rest1_b: int = b.w1 as int + b.w2 as int * pow2_64() + b.w3 as int * pow2_128();
    lemma_split_limb(a.w0 as int, rest1_a, b.w0 as int, rest1_b);
    let rest2_a: int = a.w2 as int + a.w3 as int * pow2_64();
    let rest2_b: int = b.w2 as int + b.w3 as int * pow2_64();
    lemma_split_limb(a.w1 as int, rest2_a, b.w1 as int, rest2_b);
    lemma_split_limb(a.w2 as int, a.w3 as int, b.w2 as int, b.w3 as int);
}

/// The product of two 128-bit numbers fits in 256 bits.
pub proof fn lemma_product_fits(a: nat, b: nat)
    requires
        a < pow2_128(),
        b < pow2_128(),
    ensures
        a * b < pow2_256(),
{
    assert(a * b <= (pow2_128() - 1) * (pow2_128() - 1)) by (nonlinear_arith)
        requires
            a <= pow2_128() - 1,
            b <= pow2_128() - 1,
    ;
    assert((pow2_128() - 1) * (pow2_128() - 1) < pow2_256());
}

impl Wide {
    /// The wide integer equal to `x`.
    pub fn from_u128(x: u128) -> (r: Wide)
        ensures
            r@ == x,
    {
        let low: u64 = (x & 0xffff_ffff_ffff_ffff) as u64;
        let high: u64 = (x >> 64) as u64;
        assert(x == (x & 0xffff_ffff_ffff_ffff) + (x >> 64) * 0x1_0000_0000_0000_0000)
            by (bit_vector);
        assert((x & 0xffff_ffff_ffff_ffff) <= 0xffff_ffff_ffff_ffff) by (bit_vector);
        assert((x >> 64) <= 0xffff_ffff_ffff_ffff) by (bit_vector);
        Wide { w0: low, w1: high, w2: 0, w3: 0 }
    }

    /// Whether the value is zero.
    pub fn is_zero(self) -> (r: bool)
        ensures
            r == (self@ == 0),
    {
        self.w0 == 0 && self.w1 == 0 && self.w2 == 0 && self.w3 == 0
    }

    /// The value as a `u128`, or `None` when it needs more than 128 bits.
    pub fn to_u128(self) -> (r: Option<u128>)
        ensures
            self@ < pow2_128() ==> r == Some(self@ as u128),
            self@ >= pow2_128() ==> r is None,
    {
        if self.w2 == 0 && self.w3 == 0 {
            let low: u128 = self.w0 as u128;
            let high: u128 = self.w1 as u128;
            assert(high * 0x1_0000_0000_0000_0000 + low <= u128::MAX);
            Some(high * 0x1_0000_0000_0000_0000 + low)
        } else {
            None
        }
    }
}

/// The sum of two optional numbers, absent when either is absent or the sum
/// needs more than 256 bits.
pub open spec fn sum_of(a: Option<nat>, b: Option<nat>) -> Option<nat> {
    match (a, b) {
        (Some(x), Some(y)) => if x + y < pow2_256() {
            Some(x + y)
        } else {
            None
        },
        _ => None,
    }
}

/// The difference of two optional numbers, absent when either is absent or the
/// difference would be negative.
pub open spec fn difference_of(a: Option<nat>, b: Option<nat>) -> Option<nat> {
    match (a, b) {
        (Some(x), Some(y)) => if y <= x {
            Some((x - y) as nat)
        } else {
            None
        },
        _ => None,
    }
}

/// The product of two optional numbers, absent when either is absent or the
/// product needs more than 256 bits.
pub open spec fn product_of(a: Option<nat>, b: Option<nat>) -> Option<nat> {
    match (a, b) {
        (Some(x), Some(y)) => if x * y < pow2_256() {
            Some(x * y)
        } else {
            None
        },
        _ => None,
    }
}

/// The quotient of two optional numbers rounded down, absent when either is
/// absent or the divisor is zero.
pub open spec fn quotient_of(a: Option<nat>, b: Option<nat>) -> Option<nat> {
    match (a, b) {
        (Some(x), Some(y)) => if y != 0 {
            Some(x / y)
        } else {
            None
        },
        _ => None,
    }
}

/// Whether `r` is the integer square root of `x`: the largest number whose
/// square does not exceed `x`.
pub open spec fn is_floor_sqrt(r: nat, x: nat) -> bool {
    r * r <= x && x < (r + 1) * (r + 1)
}

/// The integer square root of `x`.
pub open spec fn floor_sqrt(x: nat) -> nat {
    choose|r: nat| is_floor_sqrt(r, x)
}

/// The integer square root of an optional number, absent when the number is.
pub open spec fn root_of(a: Option<nat>) -> Option<nat> {
    match a {
        Some(x) => Some(floor_sqrt(x)),
        None => None,
    }
}

/// A number has one integer square root.
pub proof fn lemma_floor_sqrt_unique(a: nat, b: nat, x: nat)
    requires
        is_floor_sqrt(a, x),
        is_floor_sqrt(b, x),
    ensures
        a == b,
{
    assert(a == b) by (nonlinear_arith)
        requires
            a * a <= x,
            x < (a + 1) * (a + 1),
            b * b <= x,
            x < (b + 1) * (b + 1),
    ;
}

/// Every number has an integer square root, and [`floor_sqrt`] is it.
pub proof fn lemma_floor_sqrt_exists(x: nat)
    ensures
        is_floor_sqrt(floor_sqrt(x), x),
    decreases x,
{
    if x == 0 {
        assert(is_floor_sqrt(0, 0)) by (nonlinear_arith);
    } else {
        lemma_floor_sqrt_exists((x - 1) as nat);
        let r: nat = floor_sqrt((x - 1) as nat);
        if (r + 1) * (r + 1) <= x {
            assert(is_floor_sqrt(r + 1, x)) by (nonlinear_arith)
                requires
                    (r + 1) * (r + 1) <= x,
                    x - 1 < (r + 1) * (r + 1),
            ;
        } else {
            assert(is_floor_sqrt(r, x)) by (nonlinear_arith)
                requires
                    r * r <= x - 1,
                    x < (r + 1) * (r + 1),
            ;
        }
    }
}

/// A number that is an integer square root of `x` is [`floor_sqrt`] of `x`.
pub proof fn lemma_floor_sqrt_is(r: nat, x: nat)
    requires
        is_floor_sqrt(r, x),
    ensures
        floor_sqrt(x) == r,
{
    lemma_floor_sqrt_unique(r, floor_sqrt(x), x);
}

/// Calls `U256::checked_add` of `primitive_types`, which adds with carry over
/// the four limbs and gives `None` when a carry leaves the top limb. Trusted:
/// the sum when it is below 2^256, `None` otherwise.
#[verifier::external_body]
pub(crate) fn u256_checked_add(a: Wide, b: Wide) -> (r: Option<Wide>)
    ensures
        opt_value(r) == sum_of(Some(a@), Some(b@)),
{
    let x = primitive_types::U256([a.w0, a.w1, a.w2, a.w3]);
    let y = primitive_types::U256([b.w0, b.w1, b.w2, b.w3]);
    match x.checked_add(y) {
        Some(s) => Some(Wide { w0: s.0[0], w1: s.0[1], w2: s.0[2], w3: s.0[3] }),
        None => None,
    }
}

/// Calls `U256::checked_sub` of `primitive_types`, which subtracts with borrow
/// and gives `None` when a borrow leaves the top limb. Trusted: the difference
/// when `b` is at most `a`, `None` otherwise.
#[verifier::external_body]
pub(crate) fn u256_checked_sub(a: Wide, b: Wide) -> (r: Option<Wide>)
    ensures
        opt_value(r) == difference_of(Some(a@), Some(b@)),
{
    let x = primitive_types::U256([a.w0, a.w1, a.w2, a.w3]);
    let y = primitive_types::U256([b.w0, b.w1, b.w2, b.w3]);
    match x.checked_sub(y) {
        Some(d) => Some(Wide { w0: d.0[0], w1: d.0[1], w2: d.0[2], w3: d.0[3] }),
        None => None,
    }
}

/// Calls `U256::checked_mul` of `primitive_types`, which multiplies limb by
/// limb and gives `None` when the product needs more than four limbs. Trusted:
/// the product when it is below 2^256, `None` otherwise.
#[verifier::external_body]
pub(crate) fn u256_checked_mul(a: Wide, b: Wide) -> (r: Option<Wide>)
    ensures
        opt_value(r) == product_of(Some(a@), Some(b@)),
{
    let x = primitive_types::U256([a.w0, a.w1, a.w2, a.w3]);
    let y = primitive_types::U256([b.w0, b.w1, b.w2, b.w3]);
    match x.checked_mul(y) {
        Some(p) => Some(Wide { w0: p.0[0], w1: p.0[1], w2: p.0[2], w3: p.0[3] }),
        None => None,
    }
}

/// Calls `U256::checked_div` of `primitive_types`, which gives `None` for a
/// zero divisor and otherwise the quotient of its long division. Trusted: the
/// quotient rounded down when `b` is not zero, `None` when it is.
#[verifier::external_body]
pub(crate) fn u256_checked_div(a: Wide, b: Wide) -> (r: Option<Wide>)
    ensures
        opt_value(r) == quotient_of(Some(a@), Some(b@)),
{
    let x = primitive_types::U256([a.w0, a.w1, a.w2, a.w3]);
    let y = primitive_types::U256([b.w0, b.w1, b.w2, b.w3]);
    match x.checked_div(y) {
        Some(q) => Some(Wide { w0: q.0[0], w1: q.0[1], w2: q.0[2], w3: q.0[3] }),
        None => None,
    }
}

/// Calls `U256::saturating_sub` of `primitive_types`, which subtracts and
/// gives zero when a borrow leaves the top limb. Trusted: the difference, or
/// zero when `b` exceeds `a`.
#[verifier::external_body]
pub(crate) fn u256_saturating_sub(a: Wide, b: Wide) -> (r: Wide)
    ensures
        r@ == if b@ <= a@ { a@ - b@ } else { 0 },
{
    let x = primitive_types::U256([a.w0, a.w1, a.w2, a.w3]);
    let y = primitive_types::U256([b.w0, b.w1, b.w2, b.w3]);
    let d = x.saturating_sub(y);
    Wide { w0: d.0[0], w1: d.0[1], w2: d.0[2], w3: d.0[3] }
}

/// Calls `U256::integer_sqrt` of `primitive_types`, documented as the highest
/// `n` such that `n * n <= self`; its Newton iteration starts above the root
/// and stops at the first step that does not descend, so it never overflows.
/// Trusted: the result is that `n`.
#[verifier::external_body]
pub(crate) fn u256_integer_sqrt(a: Wide) -> (r: Wide)
    ensures
        r@ * r@ <= a@,
        a@ < (r@ + 1) * (r@ + 1),
{
    let x = primitive_types::U256([a.w0, a.w1, a.w2, a.w3]);
    let n = x.integer_sqrt();
    Wide { w0: n.0[0], w1: n.0[1], w2: n.0[2], w3: n.0[3] }
}

/// Calls `std::cmp::min` on two `U256` of `primitive_types`, whose order
/// compares the limbs from the most significant down. Trusted: the smaller of
/// the two numbers.
#[verifier::external_body]
pub(crate) fn u256_min(a: Wide, b: Wide) -> (r: Wide)
    ensures
        r@ == if a@ <= b@ { a@ } else { b@ },
{
    let x = primitive_types::U256([a.w0, a.w1, a.w2, a.w3]);
    let y = primitive_types::U256([b.w0, b.w1, b.w2, b.w3]);
    let m = std::cmp::min(x, y);
    Wide { w0: m.0[0], w1: m.0[1], w2: m.0[2], w3: m.0[3] }
}

/// Checked addition: absent operands and overflow give `None`.
pub fn checked_add(a: Option<Wide>, b: Option<Wide>) -> (r: Option<Wide>)
    ensures
        opt_value(r) == sum_of(opt_value(a), opt_value(b)),
{
    match (a, b) {
        (Some(x), Some(y)) => u256_checked_add(x, y),
        _ => None,
    }
}

/// Checked subtraction: absent operands and underflow give `None`.
pub fn checked_sub(a: Option<Wide>, b: Option<Wide>) -> (r: Option<Wide>)
    ensures
        opt_value(r) == difference_of(opt_value(a), opt_value(b)),
{
    match (a, b) {
        (Some(x), Some(y)) => u256_checked_sub(x, y),
        _ => None,
    }
}

/// Checked multiplication: absent operands and overflow give `None`.
pub fn checked_mul(a: Option<Wide>, b: Option<Wide>) -> (r: Option<Wide>)
    ensures
        opt_value(r) == product_of(opt_value(a), opt_value(b)),
{
    match (a, b) {
        (Some(x), Some(y)) => u256_checked_mul(x, y),
        _ => None,
    }
}

/// Checked division: absent operands and a zero divisor give `None`.
pub fn checked_div(a: Option<Wide>, b: Option<Wide>) -> (r: Option<Wide>)
    ensures
        opt_value(r) == quotient_of(opt_value(a), opt_value(b)),
{
    match (a, b) {
        (Some(x), Some(y)) => u256_checked_div(x, y),
        _ => None,
    }
}

/// Integer square root of an optional number, absent only when the operand is.
pub fn integer_sqrt(a: Option<Wide>) -> (r: Option<Wide>)
    ensures
        opt_value(r) == root_of(opt_value(a)),
        r matches Some(n) ==> is_floor_sqrt(n@, a->Some_0@),
{
    match a {
        Some(x) => {
            let n = u256_integer_sqrt(x);
            proof {
                lemma_floor_sqrt_is(n@, x@);
            }
            Some(n)
        },
        None => None,
    }
}

/// `value * nom / denom` rounded down, as a number.
pub open spec fn ratio_floor(value: nat, nom: nat, denom: nat) -> nat {
    (value * nom) / denom
}

/// Scaling by a ratio of at most one does not enlarge.
pub proof fn lemma_ratio_floor_at_most_value(value: nat, nom: nat, denom: nat)
    requires
        denom > 0,
        nom <= denom,
    ensures
        ratio_floor(value, nom, denom) <= value,
{
    assert((value * nom) / denom <= value) by (nonlinear_arith)
        requires
            denom > 0,
            nom <= denom,
    ;
}

/// Scaling is monotonic: a larger value scales to no less.
pub proof fn lemma_ratio_floor_monotonic(smaller: nat, larger: nat, nom: nat, denom: nat)
    requires
        smaller <= larger,
        denom > 0,
    ensures
        ratio_floor(smaller, nom, denom) <= ratio_floor(larger, nom, denom),
{
    assert((smaller * nom) / denom <= (larger * nom) / denom) by (nonlinear_arith)
        requires
            smaller <= larger,
            denom > 0,
    ;
}

/// What [`multiply_ratio`] returns: the scaled value, or the reason there is
/// none.
pub open spec fn multiply_ratio_result(
    value: u128,
    nom: u128,
    denom: u128,
    quantity: Quantity,
) -> Result<u128, PairError> {
    if denom == 0 {
        Err(PairError::DegenerateState(quantity, Operands::Three(value, nom, denom)))
    } else if ratio_floor(value as nat, nom as nat, denom as nat) > u128::MAX {
        Err(PairError::Overflow(quantity, Operands::Three(value, nom, denom)))
    } else {
        Ok(ratio_floor(value as nat, nom as nat, denom as nat) as u128)
    }
}

/// Scales `value` by `nom / denom`: multiplies first, in 256 bits, then
/// divides and rounds down. A zero `denom` and a result above `u128::MAX` are
/// failures of computing `quantity` from `value`, `nom` and `denom`.
pub fn multiply_ratio(value: u128, nom: u128, denom: u128, quantity: Quantity) -> (r: Result<
    u128,
    PairError,
>)
    ensures
        r == multiply_ratio_result(value, nom, denom, quantity),
{
    proof {
        lemma_product_fits(value as nat, nom as nat);
    }
    let product = checked_mul(Some(Wide::from_u128(value)), Some(Wide::from_u128(nom)));
    match checked_div(product, Some(Wide::from_u128(denom))) {
        None => Err(PairError::DegenerateState(quantity, Operands::Three(value, nom, denom))),
        Some(q) => match q.to_u128() {
            None => Err(PairError::Overflow(quantity, Operands::Three(value, nom, denom))),
            Some(scaled) => Ok(scaled),
        },
    }
}

} // verus!
