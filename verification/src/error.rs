//! The failures a pool computation can end in.

use vstd::prelude::*;

verus! {

/// The quantity that was being computed when a calculation failed.
#[derive(Clone, Copy, Debug, PartialEq, Eq, Structural)]
pub enum Quantity {
    /// The amount a swap pays out of the ask reserve.
    ReturnAmount,
    /// The price impact of a swap against the pre-trade price.
    SpreadAmount,
    /// The fee a swap leaves in the pool.
    CommissionAmount,
    /// The amount that has to be offered for a wanted return.
    OfferAmount,
    /// The liquidity shares minted for a deposit.
    Share,
    /// The amount of one asset paid back for burned shares.
    RefundAmount,
    /// A reserve before the amount just received was added to it.
    Reserve,
    /// The running total of one asset offered to the pool.
    Volume,
    /// A fixed-point rate: a fee, a tolerance, a price or a ratio of amounts.
    Rate,
    /// A reserve or supply figure as reported to observers.
    ReportedAmount,
}

/// The numbers a failed calculation was made on, in the order in which the
/// calculation takes them.
#[derive(Clone, Copy, Debug, PartialEq, Eq, Structural)]
pub enum Operands {
    Two(u128, u128),
    Three(u128, u128, u128),
}

/// Why a pool computation was rejected. Every failure ends the call that
/// produced it; nothing is clamped, wrapped or replaced by a default. A failed
/// calculation names the quantity it was for and the numbers it was made on.
#[derive(Clone, Copy, Debug, PartialEq, Eq, Structural)]
pub enum PairError {
    /// The quantity does not fit the integer range it must fit.
    Overflow(Quantity, Operands),
    /// The quantity would be negative.
    Underflow(Quantity, Operands),
    /// The quantity is not defined: an empty reserve, no outstanding shares,
    /// or a zero denominator would have to be divided by.
    DegenerateState(Quantity, Operands),
    /// An asset matches neither side of the pool.
    InvalidAsset,
    /// A deposit's implied price is further from the pool's than tolerated.
    SlippageExceeded,
    /// A swap's spread is larger than the caller accepts.
    SpreadExceeded,
    /// A swap returns less than the caller expects.
    ReturnBelowExpected,
}

/// The decimal digit `d` as text.
pub open spec fn digit_text(d: nat) -> Seq<char> {
    if d == 0 {
        "0"@
    } else if d == 1 {
        "1"@
    } else if d == 2 {
        "2"@
    } else if d == 3 {
        "3"@
    } else if d == 4 {
        "4"@
    } else if d == 5 {
        "5"@
    } else if d == 6 {
        "6"@
    } else if d == 7 {
        "7"@
    } else if d == 8 {
        "8"@
    } else {
        "9"@
    }
}

/// The number `n` in decimal digits, without leading zeros.
pub open spec fn decimal_text(n: nat) -> Seq<char>
    decreases n,
{
    if n < 10 {
        digit_text(n)
    } else {
        decimal_text(n / 10) + digit_text(n % 10)
    }
}

/// The decimal digit `d` as text.
fn digit(d: u128) -> (r: &'static str)
    requires
        d < 10,
    ensures
        r@ == digit_text(d as nat),
{
    if d == 0 {
        "0"
    } else if d == 1 {
        "1"
    } else if d == 2 {
        "2"
    } else if d == 3 {
        "3"
    } else if d == 4 {
        "4"
    } else if d == 5 {
        "5"
    } else if d == 6 {
        "6"
    } else if d == 7 {
        "7"
    } else if d == 8 {
        "8"
    } else {
        "9"
    }
}

/// The number `n` in decimal digits, without leading zeros.
pub fn decimal_string(n: u128) -> (r: String)
    ensures
        r@ == decimal_text(n as nat),
    decreases n,
{
    if n < 10 {
        String::from_str(digit(n))
    } else {
        decimal_string(n / 10).concat(digit(n % 10))
    }
}

impl Operands {
    /// The operands in decimal digits, separated by commas.
    pub open spec fn text(self) -> Seq<char> {
        match self {
            Operands::Two(a, b) => decimal_text(a as nat) + ", "@ + decimal_text(b as nat),
            Operands::Three(a, b, c) => decimal_text(a as nat) + ", "@ + decimal_text(b as nat)
                + ", "@ + decimal_text(c as nat),
        }
    }

    /// The operands in decimal digits, separated by commas.
    pub fn render(&self) -> (r: String)
        ensures
            r@ == self.text(),
    {
        match self {
            Operands::Two(a, b) => decimal_string(*a).concat(", ").concat(
                decimal_string(*b).as_str(),
            ),
            Operands::Three(a, b, c) => decimal_string(*a).concat(", ").concat(
                decimal_string(*b).as_str(),
            ).concat(", ").concat(decimal_string(*c).as_str()),
        }
    }
}

impl Quantity {
    /// The name of the quantity as it stands in messages.
    pub open spec fn name_text(self) -> Seq<char> {
        match self {
            Quantity::ReturnAmount => "return_amount"@,
            Quantity::SpreadAmount => "spread_amount"@,
            Quantity::CommissionAmount => "commission_amount"@,
            Quantity::OfferAmount => "offer_amount"@,
            Quantity::Share => "share"@,
            Quantity::RefundAmount => "refund_amount"@,
            Quantity::Reserve => "pool_amount"@,
            Quantity::Volume => "volume"@,
            Quantity::Rate => "rate"@,
            Quantity::ReportedAmount => "reported_amount"@,
        }
    }

    /// The name of the quantity as it stands in messages.
    pub fn name(&self) -> (r: &'static str)
        ensures
            r@ == self.name_text(),
    {
        match self {
            Quantity::ReturnAmount => "return_amount",
            Quantity::SpreadAmount => "spread_amount",
            Quantity::CommissionAmount => "commission_amount",
            Quantity::OfferAmount => "offer_amount",
            Quantity::Share => "share",
            Quantity::RefundAmount => "refund_amount",
            Quantity::Reserve => "pool_amount",
            Quantity::Volume => "volume",
            Quantity::Rate => "rate",
            Quantity::ReportedAmount => "reported_amount",
        }
    }
}

impl PairError {
    /// The text of a failed calculation: the quantity, the operands, and what
    /// went wrong.
    pub open spec fn calculation_text(
        quantity: Quantity,
        operands: Operands,
        failure: Seq<char>,
    ) -> Seq<char> {
        "Cannot calculate "@ + quantity.name_text() + " from "@ + operands.text() + ": "@
            + failure
    }

    /// The message of the failure: for a failed calculation the quantity,
    /// the operands and what went wrong, for a rejection what was exceeded.
    pub open spec fn message_text(self) -> Seq<char> {
        match self {
            PairError::Overflow(quantity, operands) => Self::calculation_text(
                quantity,
                operands,
                "overflow"@,
            ),
            PairError::Underflow(quantity, operands) => Self::calculation_text(
                quantity,
                operands,
                "underflow"@,
            ),
            PairError::DegenerateState(quantity, operands) => Self::calculation_text(
                quantity,
                operands,
                "degenerate state"@,
            ),
            PairError::InvalidAsset => "Wrong asset info is given"@,
            PairError::SlippageExceeded => "Operation exceeds max slippage tolerance"@,
            PairError::SpreadExceeded => "Operation exceeds max spread limit"@,
            PairError::ReturnBelowExpected => "Operation fell short of expected_return"@,
        }
    }

    fn calculation_message(quantity: &Quantity, operands: &Operands, failure: &str) -> (r:
        String)
        ensures
            r@ == Self::calculation_text(*quantity, *operands, failure@),
    {
        String::from_str("Cannot calculate ").concat(quantity.name()).concat(" from ").concat(
            operands.render().as_str(),
        ).concat(": ").concat(failure)
    }

    /// The message of the failure.
    pub fn message(&self) -> (r: String)
        ensures
            r@ == self.message_text(),
    {
        match self {
            PairError::Overflow(quantity, operands) => Self::calculation_message(
                quantity,
                operands,
                "overflow",
            ),
            PairError::Underflow(quantity, operands) => Self::calculation_message(
                quantity,
                operands,
                "underflow",
            ),
            PairError::DegenerateState(quantity, operands) => Self::calculation_message(
                quantity,
                operands,
                "degenerate state",
            ),
            PairError::InvalidAsset => String::from_str("Wrong asset info is given"),
            PairError::SlippageExceeded => String::from_str(
                "Operation exceeds max slippage tolerance",
            ),
            PairError::SpreadExceeded => String::from_str("Operation exceeds max spread limit"),
            PairError::ReturnBelowExpected => String::from_str(
                "Operation fell short of expected_return",
            ),
        }
    }
}

} // verus!
