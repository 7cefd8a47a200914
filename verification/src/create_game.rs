//! Opening a game: validate the timeframe, move the bet into the vault,
//! create the `Game` record, and announce the new game.

use vstd::prelude::*;

use crate::GameCreated;
use crate::error::{GameError, TxError};
use crate::ledger::{Ledger, moved, unchanged};
use crate::state::{Game, Pubkey};

verus! {

/// The `Game` record a successful open writes: opened at `now`, ending
/// `timeframe` seconds later. Meaningful only when `now + timeframe` fits in
/// a `u64`, which every caller requires.
pub open spec fn opened_game(
    player: Pubkey,
    id: u64,
    timeframe: u64,
    bet_amount: u64,
    prediction: bool,
    now: u64,
    bump: u8,
) -> Game {
    Game {
        id,
        player,
        start_time: now,
        end_time: (now + timeframe) as u64,
        bet_amount,
        prediction,
        bump,
    }
}

impl Ledger {
    /// An open can go through exactly when the timeframe is long enough,
    /// the player can cover the bet, and no game is recorded yet under
    /// `(player, id)`.
    pub open spec fn open_ok(
        self,
        player: Pubkey,
        id: u64,
        timeframe: u64,
        bet_amount: u64,
    ) -> bool {
        &&& timeframe >= 60
        &&& self.balance(player) >= bet_amount
        &&& !self.has_game(player, id)
    }

    /// Moves the bet from the player into the vault. Fails exactly when the
    /// player holds less than the bet, and then changes nothing.
    pub fn transfer_bet(&mut self, player: Pubkey, bet_amount: u64) -> (r: Result<(), TxError>)
        requires
            old(self).wf(),
        ensures
            final(self).wf(),
            final(self).vault == old(self).vault,
            final(self).games@ == old(self).games@,
            final(self).results@ == old(self).results@,
            final(self).total == old(self).total,
            r is Ok <==> old(self).balance(player) >= bet_amount,
            r is Err ==> unchanged(*old(self), *final(self)) && r == Err::<(), TxError>(
                TxError::InsufficientFunds,
            ),
            r is Ok ==> moved(*old(self), *final(self), player, old(self).vault, bet_amount),
    {
        let vault = self.vault;
        self.transfer(player, vault, bet_amount)
    }

    /// Creates the `Game` record at the location derived from
    /// `(player, id)`. Fails exactly when a record already sits there, and
    /// then changes nothing: the create-or-fail storage primitive.
    pub fn start_game(
        &mut self,
        player: Pubkey,
        id: u64,
        timeframe: u64,
        bet_amount: u64,
        prediction: bool,
        now: u64,
        bump: u8,
    ) -> (r: Result<(), TxError>)
        requires
            old(self).wf(),
            now + timeframe <= u64::MAX,
        ensures
            final(self).wf(),
            final(self).vault == old(self).vault,
            final(self).accounts@ == old(self).accounts@,
            final(self).results@ == old(self).results@,
            final(self).total == old(self).total,
            r is Ok <==> !old(self).has_game(player, id),
            r is Err ==> unchanged(*old(self), *final(self)) && r == Err::<(), TxError>(
                TxError::RecordExists,
            ),
            r is Ok ==> final(self).games@ == old(self).games@.push(
                opened_game(player, id, timeframe, bet_amount, prediction, now, bump),
            ),
            r is Ok ==> final(self).has_game(player, id),
    {
        if self.find_game(player, id).is_some() {
            return Err(TxError::RecordExists);
        }
        let record = Game {
            id,
            player,
            start_time: now,
            end_time: now + timeframe,
            bet_amount,
            prediction,
            bump,
        };
        self.games.push(record);
        proof {
            let pre = old(self).games@;
            let post = self.games@;
            assert forall|i: int, j: int| 0 <= i < j < post.len() implies !(#[trigger] post[i].player
                == #[trigger] post[j].player && post[i].id == post[j].id) by {
                if j < pre.len() {
                    assert(post[i] == pre[i]);
                    assert(post[j] == pre[j]);
                } else {
                    assert(post[j] == record);
                    assert(post[i] == pre[i]);
                }
            }
            assert(post[post.len() - 1] == record);
        }
        Ok(())
    }

    /// The `Game` record keyed by `(player, id)`, if one exists.
    pub fn find_game(&self, player: Pubkey, id: u64) -> (r: Option<Game>)
        ensures
            match r {
                Some(g) => self.has_game(player, id) && g.player == player && g.id == id
                    && exists|i: int| 0 <= i < self.games@.len() && #[trigger] self.games@[i] == g,
                None => !self.has_game(player, id),
            },
    {
        let mut i: usize = 0;
        while i < self.games.len()
            invariant
                i <= self.games@.len(),
                forall|j: int|
                    0 <= j < i ==> !((#[trigger] self.games@[j]).player == player
                        && self.games@[j].id == id),
            decreases self.games@.len() - i,
        {
            let g = self.games[i];
            if g.player == player && g.id == id {
                return Some(g);
            }
            i = i + 1;
        }
        None
    }

    /// The open operation. Atomically validates the timeframe, moves the
    /// bet from the player into the vault, creates the `Game` record, and
    /// returns the `GameCreated` notice; any failure leaves the ledger
    /// exactly as it was. The transfer is attempted before the record is
    /// created, so a bet that cannot be collected never leaves a record.
    ///
    /// `now` is the current time as the runtime clock reports it; `bump` is
    /// the storage-location derivation salt the runtime hands in.
    pub fn new_game(
        &mut self,
        player: Pubkey,
        id: u64,
        timeframe: u64,
        bet_amount: u64,
        prediction: bool,
        now: u64,
        bump: u8,
    ) -> (r: Result<GameCreated, TxError>)
        requires
            old(self).wf(),
            now + timeframe <= u64::MAX,
        ensures
            final(self).wf(),
            final(self).vault == old(self).vault,
            final(self).results@ == old(self).results@,
            final(self).total == old(self).total,
            r is Ok <==> old(self).open_ok(player, id, timeframe, bet_amount),
            timeframe < 60 ==> r == Err::<GameCreated, TxError>(
                TxError::Game(GameError::InvalidTimeframe),
            ),
            timeframe >= 60 && old(self).balance(player) < bet_amount ==> r == Err::<
                GameCreated,
                TxError,
            >(TxError::InsufficientFunds),
            timeframe >= 60 && old(self).balance(player) >= bet_amount && old(self).has_game(
                player,
                id,
            ) ==> r == Err::<GameCreated, TxError>(TxError::RecordExists),
            r is Err ==> unchanged(*old(self), *final(self)),
            r is Ok ==> r == Ok::<GameCreated, TxError>((GameCreated { id, player }))
                && final(self).games@ == old(self).games@.push(
                opened_game(player, id, timeframe, bet_amount, prediction, now, bump),
            ) && final(self).has_game(player, id) && moved(
                *old(self),
                *final(self),
                player,
                old(self).vault,
                bet_amount,
            ),
    {
        if timeframe < 60 {
            return Err(TxError::Game(GameError::InvalidTimeframe));
        }
        if self.balance_of(player) < bet_amount {
            return Err(TxError::InsufficientFunds);
        }
        if self.find_game(player, id).is_some() {
            return Err(TxError::RecordExists);
        }
        self.transfer_bet(player, bet_amount)?;
        let ghost mid = *self;
        self.start_game(player, id, timeframe, bet_amount, prediction, now, bump)?;
        proof {
            assert forall|k: Pubkey| #[trigger] self.balance(k) == mid.balance(k) by {
                assert(self.accounts@ == mid.accounts@);
            }
        }
        Ok(GameCreated { id, player })
    }
}

/// A game opened under `(player, id)` can never be opened again: once its
/// record exists, no later open with the same pair can go through, whatever
/// timeframe or bet it offers. Together with the open operation's contract
/// (a failed open changes nothing), at most one `Game` record is ever
/// created per `(player, id)`, and a failed duplicate leaves the first
/// record untouched.
pub proof fn lemma_open_at_most_once(
    st: Ledger,
    player: Pubkey,
    id: u64,
    timeframe: u64,
    bet_amount: u64,
)
    requires
        st.has_game(player, id),
    ensures
        !st.open_ok(player, id, timeframe, bet_amount),
{
}

/// A well-formed ledger never holds two `Game` records with the same
/// `(player, id)` pair.
pub proof fn lemma_game_record_unique(st: Ledger, i: int, j: int)
    requires
        st.wf(),
        0 <= i < st.games@.len(),
        0 <= j < st.games@.len(),
        st.games@[i].player == st.games@[j].player,
        st.games@[i].id == st.games@[j].id,
    ensures
        i == j,
{
}

} // verus!
