//! An escrowed prediction game: a player stakes tokens on a binary outcome
//! over a time window, and a single trusted settlement authority later
//! resolves the outcome and pays winnings from a shared vault.
//!
//! The [`ledger::Ledger`] type models the on-chain resources the two
//! operations touch: account balances, the vault, and the two record stores.
//! [`create_game`] holds the opening operation (validate the timeframe, move
//! the bet into the vault, create a `Game` record), [`settle_game`] the
//! settlement operation (check the caller is the settlement authority, pay
//! winnings from the vault, create a `GameResult` record). Every operation is
//! atomic: it either applies all of its effects or leaves the ledger exactly
//! as it was.

use vstd::prelude::*;

pub mod error;
pub mod state;
pub mod ledger;
pub mod create_game;
pub mod settle_game;

verus! {

use crate::state::Pubkey;

/// Notification returned by a successful open: the game's id and the player
/// who staked the bet.
#[derive(Clone, Copy, PartialEq, Eq, Structural, Debug)]
pub struct GameCreated {
    pub id: u64,
    pub player: Pubkey,
}

/// Notification returned by a successful settlement: the game's id, the
/// resolved outcome, and the amount paid out.
#[derive(Clone, Copy, PartialEq, Eq, Structural, Debug)]
pub struct GameSettled {
    pub id: u64,
    pub result: bool,
    pub amount_won: u64,
}

} // verus!
