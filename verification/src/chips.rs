use vstd::prelude::*;
use crate::BlackjackError;

verus! {

/// The player's chip ledger: the standing balance and the wager of the
/// current round. The balance outlives a round; the bet is placed anew
/// each round and only settlement moves the balance.
#[derive(Clone, Debug)]
pub struct Chips {
    pub total: i32,
    pub bet: i32,
}

impl Chips {
    /// A fresh ledger holding the given balance and no wager yet.
    pub fn new(total: i32) -> (c: Chips)
        ensures
            c.total == total,
            c.bet == 0,
    {
        Chips { total, bet: 0 }
    }

    /// Validate and set the round's wager in one call: a bet above the
    /// standing balance is refused with `InvalidBet` and nothing changes;
    /// any other amount is recorded, the balance untouched. Retrying on
    /// refusal is the caller's business.
    pub fn place_bet(&mut self, amount: i32) -> (r: Result<(), BlackjackError>)
        ensures
            amount > old(self).total ==> r == Err::<(), BlackjackError>(BlackjackError::InvalidBet)
                && *final(self) == *old(self),
            amount <= old(self).total ==> r == Ok::<(), BlackjackError>(())
                && final(self).total == old(self).total && final(self).bet == amount,
    {
        if amount > self.total {
            Err(BlackjackError::InvalidBet)
        } else {
            self.bet = amount;
            Ok(())
        }
    }

    /// A won round pays the wager into the balance; the wager stands
    /// until the next round re-places it.
    pub fn win_bet(&mut self)
        requires
            old(self).total + old(self).bet <= i32::MAX,
            i32::MIN <= old(self).total + old(self).bet,
        ensures
            final(self).total == old(self).total + old(self).bet,
            final(self).bet == old(self).bet,
    {
        self.total = self.total + self.bet;
    }

    /// A lost round takes the wager out of the balance.
    pub fn lose_bet(&mut self)
        requires
            i32::MIN <= old(self).total - old(self).bet,
            old(self).total - old(self).bet <= i32::MAX,
        ensures
            final(self).total == old(self).total - old(self).bet,
            final(self).bet == old(self).bet,
    {
        self.total = self.total - self.bet;
    }
}

} // verus!
