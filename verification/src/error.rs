//! Typed failures.  Every operation returns one of these as a whole-request
//! outcome; no partial state is ever left behind.

use vstd::prelude::*;

verus! {

/// Failure of an execute operation.
#[derive(Clone, Copy, Debug, PartialEq, Eq, Structural)]
pub enum ContractError {
    /// A subtraction would go negative: a balance, an allowance or the
    /// total supply.
    Underflow,
    /// The caller lacks the required role: minter, campaign owner, or a
    /// sufficient, unexpired allowance.
    Unauthorized,
    /// The mint would push the total supply over the configured cap.
    CannotExceedCap,
    /// The amount must be greater than zero.
    InvalidZeroAmount,
    /// The investment names a campaign owner that does not match the
    /// configured one.
    WrongIcoAddress,
    /// The campaign has already been allocated or refunded, or no longer
    /// accepts investments.
    IcoClosed,
}

/// Fatal failure of initialization; nothing is created.
#[derive(Clone, Copy, Debug, PartialEq, Eq, Structural)]
pub enum InstantiateError {
    /// The genesis supply is greater than the configured mint cap.
    SupplyExceedsCap,
    /// The campaign target is greater than the genesis supply.
    TargetExceedsSupply,
    /// The conversion ratio's denominator is zero.
    InvalidRatio,
}

} // verus!
