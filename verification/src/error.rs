//! Everything that can go wrong inside one operation. Each error is returned
//! synchronously to the caller of the violating operation; no operation
//! commits a partial change.

use vstd::prelude::*;

verus! {

#[derive(Clone, Copy, Debug, PartialEq, Eq, Structural)]
pub enum ContractError {
    /// A privileged operation was attempted by someone other than the owner.
    Unauthorized,
    /// Registration was attempted on a roster that already holds the
    /// required player count.
    LimitPlayers,
    /// A turn advance was requested without a full roster.
    NotEnoughPlayers,
    /// A purchase of quantity zero was requested.
    ZeroAmount,
    /// The cost of a purchase exceeds the buyer's balance.
    InsufficientBalance,
    /// The operation references an identity that is not registered.
    UnknownCar,
}

} // verus!
