//! Errors raised by the two game operations.

use vstd::prelude::*;

verus! {

/// The game's own validation and authorization errors.
#[derive(Clone, Copy, PartialEq, Eq, Structural, Debug)]
pub enum GameError {
    /// The game should be settled by the game vault.
    SettlerNotGameVault,
    /// The timeframe should be at least 60 seconds.
    InvalidTimeframe,
}

/// Everything that can abort an operation: a game rule violation, or a
/// failure of one of the underlying resource primitives (the fund transfer,
/// or the create-or-fail record store).
#[derive(Clone, Copy, PartialEq, Eq, Structural, Debug)]
pub enum TxError {
    /// A game rule was violated.
    Game(GameError),
    /// The paying account holds less than the amount to transfer.
    InsufficientFunds,
    /// A record already exists at the derived location.
    RecordExists,
    /// A deposit would push the pooled supply past what a balance can hold.
    SupplyOverflow,
}

} // verus!
