//! Settling a game: check the caller is the settlement authority, pay any
//! winnings from the vault, create the `GameResult` record, and announce
//! the settlement.

use vstd::prelude::*;

use crate::GameSettled;
use crate::error::{GameError, TxError};
use crate::ledger::{Ledger, moved, unchanged};
use crate::state::{GameResult, Pubkey};

verus! {

/// The `GameResult` record a successful settlement writes.
pub open spec fn settled_result(
    player: Pubkey,
    id: u64,
    result: bool,
    amount_won: u64,
    bump: u8,
) -> GameResult {
    GameResult { game_id: id, player, result, amount_won, bump }
}

impl Ledger {
    /// A settlement can go through exactly when the caller is the
    /// settlement authority (the vault), the vault can cover the payout,
    /// and no result is recorded yet under `id`. A zero payout asks nothing
    /// of the vault's balance.
    pub open spec fn settle_ok(self, caller: Pubkey, id: u64, amount_won: u64) -> bool {
        &&& caller == self.vault
        &&& (amount_won == 0 || self.balance(self.vault) >= amount_won)
        &&& !self.has_result(id)
    }

    /// Pays the winnings from the vault to the player. A zero amount moves
    /// no funds at all; otherwise it fails exactly when the vault holds
    /// less than the payout, and then changes nothing.
    pub fn pay_winnings(&mut self, player: Pubkey, amount_won: u64) -> (r: Result<(), TxError>)
        requires
            old(self).wf(),
        ensures
            final(self).wf(),
            final(self).vault == old(self).vault,
            final(self).games@ == old(self).games@,
            final(self).results@ == old(self).results@,
            final(self).total == old(self).total,
            r is Ok <==> (amount_won == 0 || old(self).balance(old(self).vault) >= amount_won),
            r is Err ==> unchanged(*old(self), *final(self)) && r == Err::<(), TxError>(
                TxError::InsufficientFunds,
            ),
            amount_won == 0 ==> unchanged(*old(self), *final(self)),
            r is Ok && amount_won > 0 ==> moved(
                *old(self),
                *final(self),
                old(self).vault,
                player,
                amount_won,
            ),
    {
        if amount_won > 0 {
            let vault = self.vault;
            self.transfer(vault, player, amount_won)
        } else {
            Ok(())
        }
    }

    /// Creates the `GameResult` record at the location derived from `id`
    /// alone. Fails exactly when a record already sits there, and then
    /// changes nothing: the create-or-fail storage primitive, and the
    /// settle-exactly-once guard.
    pub fn end_game(
        &mut self,
        player: Pubkey,
        id: u64,
        result: bool,
        amount_won: u64,
        bump: u8,
    ) -> (r: Result<(), TxError>)
        requires
            old(self).wf(),
        ensures
            final(self).wf(),
            final(self).vault == old(self).vault,
            final(self).accounts@ == old(self).accounts@,
            final(self).games@ == old(self).games@,
            final(self).total == old(self).total,
            r is Ok <==> !old(self).has_result(id),
            r is Err ==> unchanged(*old(self), *final(self)) && r == Err::<(), TxError>(
                TxError::RecordExists,
            ),
            r is Ok ==> final(self).results@ == old(self).results@.push(
                settled_result(player, id, result, amount_won, bump),
            ),
            r is Ok ==> final(self).has_result(id),
    {
        if self.find_result(id).is_some() {
            return Err(TxError::RecordExists);
        }
        let record = GameResult { game_id: id, player, result, amount_won, bump };
        self.results.push(record);
        proof {
            let pre = old(self).results@;
            let post = self.results@;
            assert forall|i: int, j: int| 0 <= i < j < post.len() implies #[trigger] post[i].game_id
                != #[trigger] post[j].game_id by {
                if j < pre.len() {
                    assert(post[i] == pre[i]);
                    assert(post[j] == pre[j]);
                } else {
                    assert(post[j] == record);
                    assert(post[i] == pre[i]);
                }
            }
            assert(post[post.len() - 1] == record);
        }
        Ok(())
    }

    /// The `GameResult` record keyed by `id`, if one exists.
    pub fn find_result(&self, id: u64) -> (r: Option<GameResult>)
        ensures
            match r {
                Some(g) => self.has_result(id) && g.game_id == id && exists|i: int|
                    0 <= i < self.results@.len() && #[trigger] self.results@[i] == g,
                None => !self.has_result(id),
            },
    {
        let mut i: usize = 0;
        while i < self.results.len()
            invariant
                i <= self.results@.len(),
                forall|j: int| 0 <= j < i ==> (#[trigger] self.results@[j]).game_id != id,
            decreases self.results@.len() - i,
        {
            let g = self.results[i];
            if g.game_id == id {
                return Some(g);
            }
            i = i + 1;
        }
        None
    }

    /// The settlement operation. Atomically checks that the caller is the
    /// settlement authority, pays the winnings from the vault to the player
    /// (a zero `amount_won` moves no funds), creates the `GameResult`
    /// record, and returns the `GameSettled` notice; any failure leaves the
    /// ledger exactly as it was. The payout is attempted before the record
    /// is created, so an underfunded vault never leaves a settled record.
    ///
    /// The core does not cross-check `id`, `player`, `result` or
    /// `amount_won` against the corresponding `Game` record: the settlement
    /// authority is trusted to supply values that match the game it
    /// resolves. `bump` is the storage-location derivation salt the runtime
    /// hands in.
    pub fn settle_game(
        &mut self,
        caller: Pubkey,
        player: Pubkey,
        id: u64,
        result: bool,
        amount_won: u64,
        bump: u8,
    ) -> (r: Result<GameSettled, TxError>)
        requires
            old(self).wf(),
        ensures
            final(self).wf(),
            final(self).vault == old(self).vault,
            final(self).games@ == old(self).games@,
            final(self).total == old(self).total,
            r is Ok <==> old(self).settle_ok(caller, id, amount_won),
            caller != old(self).vault ==> r == Err::<GameSettled, TxError>(
                TxError::Game(GameError::SettlerNotGameVault),
            ),
            caller == old(self).vault && amount_won > 0 && old(self).balance(old(self).vault)
                < amount_won ==> r == Err::<GameSettled, TxError>(TxError::InsufficientFunds),
            caller == old(self).vault && (amount_won == 0 || old(self).balance(old(self).vault)
                >= amount_won) && old(self).has_result(id) ==> r == Err::<GameSettled, TxError>(
                TxError::RecordExists,
            ),
            r is Err ==> unchanged(*old(self), *final(self)),
            r is Ok ==> r == Ok::<GameSettled, TxError>((GameSettled { id, result, amount_won }))
                && final(self).results@ == old(self).results@.push(
                settled_result(player, id, result, amount_won, bump),
            ) && final(self).has_result(id),
            r is Ok && amount_won > 0 ==> moved(
                *old(self),
                *final(self),
                old(self).vault,
                player,
                amount_won,
            ),
            r is Ok && amount_won == 0 ==> final(self).accounts@ == old(self).accounts@,
    {
        if caller != self.vault {
            return Err(TxError::Game(GameError::SettlerNotGameVault));
        }
        if amount_won > 0 {
            let vault = self.vault;
            if self.balance_of(vault) < amount_won {
                return Err(TxError::InsufficientFunds);
            }
        }
        if self.find_result(id).is_some() {
            return Err(TxError::RecordExists);
        }
        self.pay_winnings(player, amount_won)?;
        let ghost mid = *self;
        self.end_game(player, id, result, amount_won, bump)?;
        proof {
            assert forall|k: Pubkey| #[trigger] self.balance(k) == mid.balance(k) by {
                assert(self.accounts@ == mid.accounts@);
            }
        }
        Ok(GameSettled { id, result, amount_won })
    }
}

/// A game settled under `id` can never be settled again: once its
/// `GameResult` record exists, no later settlement with the same `id` can
/// go through, whoever calls and whatever payout it names. Together with
/// the settlement operation's contract (a failed settlement changes
/// nothing), at most one `GameResult` record is ever created per `id`, and
/// funds are paid out for it at most once.
pub proof fn lemma_settle_at_most_once(st: Ledger, caller: Pubkey, id: u64, amount_won: u64)
    requires
        st.has_result(id),
    ensures
        !st.settle_ok(caller, id, amount_won),
{
}

/// A well-formed ledger never holds two `GameResult` records with the same
/// `game_id`.
pub proof fn lemma_result_record_unique(st: Ledger, i: int, j: int)
    requires
        st.wf(),
        0 <= i < st.results@.len(),
        0 <= j < st.results@.len(),
        st.results@[i].game_id == st.results@[j].game_id,
    ensures
        i == j,
{
}

} // verus!
