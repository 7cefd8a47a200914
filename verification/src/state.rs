//! The two persisted record types and the address type they are keyed by.

use vstd::prelude::*;

verus! {

/// A 32-byte account address, held as four 64-bit words. Addresses are only
/// ever compared for equality; the runtime that derives them is out of scope.
#[derive(Clone, Copy, PartialEq, Eq, Structural, Debug)]
pub struct Pubkey {
    pub w0: u64,
    pub w1: u64,
    pub w2: u64,
    pub w3: u64,
}

/// A wager, created once by the open operation and never mutated. Its
/// storage location is derived from `(player, id)`, so at most one `Game`
/// can ever exist per such pair.
#[derive(Clone, Copy, PartialEq, Eq, Structural, Debug)]
pub struct Game {
    /// Caller-supplied identifier; with `player` it keys the record.
    pub id: u64,
    /// Address of the staking party.
    pub player: Pubkey,
    /// Time the game was opened.
    pub start_time: u64,
    /// Always `start_time + timeframe`, with `timeframe >= 60`.
    pub end_time: u64,
    /// Amount moved into the vault when the game was opened.
    pub bet_amount: u64,
    /// The player's binary call on the outcome.
    pub prediction: bool,
    /// Storage-location derivation salt, recorded for later reconstruction.
    pub bump: u8,
}

/// The resolution of a game, created exactly once by the settle operation.
/// Its storage location is derived from `game_id` alone, so at most one
/// `GameResult` can ever exist per id: this is the settle-exactly-once guard.
#[derive(Clone, Copy, PartialEq, Eq, Structural, Debug)]
pub struct GameResult {
    /// The id of the game being resolved; keys the record.
    pub game_id: u64,
    /// Address credited with any winnings.
    pub player: Pubkey,
    /// The resolved outcome, supplied by the settlement authority.
    pub result: bool,
    /// Amount paid to the player; zero means no payout.
    pub amount_won: u64,
    /// Storage-location derivation salt.
    pub bump: u8,
}

} // verus!
