use vstd::prelude::*;
use crate::cards::{Card, Rank, ace_one, card_wf, rank_value};
use crate::chips::Chips;
use crate::deck::Deck;
use crate::hand::{Hand, hand_wf, cards_wf, value_after_adjust, aces_after_adjust};
use crate::BlackjackError;

verus! {

/// How a round ends for the ledger: the player busting loses the bet at
/// once; a dealer bust or a higher player value wins it; a higher dealer
/// value loses it; equal values push and move nothing.
#[derive(Copy, Clone, Debug, PartialEq, Eq, Structural)]
pub enum Outcome {
    PlayerBusts,
    DealerBusts,
    PlayerWins,
    DealerWins,
    Push,
}

/// What the player may do on their turn.
#[derive(Copy, Clone, Debug, PartialEq, Eq, Structural)]
pub enum Choice {
    Hit,
    Stand,
}

/// Where a round stands: awaiting the player, awaiting the dealer's
/// fixed policy, or resolved.
#[derive(Copy, Clone, Debug, PartialEq, Eq, Structural)]
pub enum RoundState {
    PlayerTurn,
    DealerTurn,
    Settled(Outcome),
}

/// The settlement rule for a player who did not bust: a dealer over 21
/// busts, otherwise the higher value wins and equal values push.
pub open spec fn outcome_of(player_value: int, dealer_value: int) -> Outcome {
    if dealer_value > 21 {
        Outcome::DealerBusts
    } else if dealer_value > player_value {
        Outcome::DealerWins
    } else if dealer_value < player_value {
        Outcome::PlayerWins
    } else {
        Outcome::Push
    }
}

/// The running value a hand shows after drawing `c` and being offered
/// one ace adjustment.
pub open spec fn hit_value(h: Hand, c: Card) -> int {
    value_after_adjust(h.value + c.value, h.aces + ace_one(c.rank))
}

/// The soft-ace count a hand shows after drawing `c` and being offered
/// one ace adjustment.
pub open spec fn hit_aces(h: Hand, c: Card) -> int {
    aces_after_adjust(h.value + c.value, h.aces + ace_one(c.rank))
}

/// Decide the settlement of a player who did not bust, comparing the two
/// final hand values.
pub fn decide_outcome(player_value: i32, dealer_value: i32) -> (r: Outcome)
    ensures
        r == outcome_of(player_value as int, dealer_value as int),
{
    if dealer_value > 21 {
        Outcome::DealerBusts
    } else if dealer_value > player_value {
        Outcome::DealerWins
    } else if dealer_value < player_value {
        Outcome::PlayerWins
    } else {
        Outcome::Push
    }
}

/// A player bust costs the bet.
pub fn player_busts(player: &mut Chips)
    requires
        i32::MIN <= old(player).total - old(player).bet,
        old(player).total - old(player).bet <= i32::MAX,
    ensures
        final(player).total == old(player).total - old(player).bet,
        final(player).bet == old(player).bet,
{
    player.lose_bet();
}

/// Beating the dealer's value pays the bet.
pub fn player_wins(player: &mut Chips)
    requires
        i32::MIN <= old(player).total + old(player).bet,
        old(player).total + old(player).bet <= i32::MAX,
    ensures
        final(player).total == old(player).total + old(player).bet,
        final(player).bet == old(player).bet,
{
    player.win_bet();
}

/// A dealer bust pays the bet.
pub fn dealer_busts(player: &mut Chips)
    requires
        i32::MIN <= old(player).total + old(player).bet,
        old(player).total + old(player).bet <= i32::MAX,
    ensures
        final(player).total == old(player).total + old(player).bet,
        final(player).bet == old(player).bet,
{
    player.win_bet();
}

/// Losing to the dealer's value costs the bet.
pub fn dealer_wins(player: &mut Chips)
    requires
        i32::MIN <= old(player).total - old(player).bet,
        old(player).total - old(player).bet <= i32::MAX,
    ensures
        final(player).total == old(player).total - old(player).bet,
        final(player).bet == old(player).bet,
{
    player.lose_bet();
}

/// Move the bet by the outcome: winning outcomes pay it, losing ones
/// take it, a push leaves the ledger exactly as it was.
pub fn settle(outcome: Outcome, player: &mut Chips)
    requires
        i32::MIN <= old(player).total - old(player).bet,
        old(player).total - old(player).bet <= i32::MAX,
        i32::MIN <= old(player).total + old(player).bet,
        old(player).total + old(player).bet <= i32::MAX,
    ensures
        outcome == Outcome::PlayerWins || outcome == Outcome::DealerBusts ==> final(player).total
            == old(player).total + old(player).bet,
        outcome == Outcome::PlayerBusts || outcome == Outcome::DealerWins ==> final(player).total
            == old(player).total - old(player).bet,
        outcome == Outcome::Push ==> final(player).total == old(player).total,
        final(player).bet == old(player).bet,
{
    match outcome {
        Outcome::PlayerBusts => player_busts(player),
        Outcome::DealerBusts => dealer_busts(player),
        Outcome::PlayerWins => player_wins(player),
        Outcome::DealerWins => dealer_wins(player),
        Outcome::Push => (),
    }
}

/// Draw the deck's last card into the hand, then offer the hand one ace
/// adjustment; an empty deck refuses with `DeckExhausted` and changes
/// nothing.
pub fn hit(deck: &mut Deck, hand: &mut Hand) -> (r: Result<(), BlackjackError>)
    requires
        hand_wf(*old(hand)),
        cards_wf(old(deck).cards@),
        old(hand).cards@.len() < 52,
    ensures
        old(deck).cards@.len() == 0 ==> r == Err::<(), BlackjackError>(
            BlackjackError::DeckExhausted,
        ) && final(deck).cards@ == old(deck).cards@ && final(hand).cards@ == old(hand).cards@
            && final(hand).value == old(hand).value && final(hand).aces == old(hand).aces,
        old(deck).cards@.len() > 0 ==> r == Ok::<(), BlackjackError>(()),
        old(deck).cards@.len() > 0 ==> final(deck).cards@ == old(deck).cards@.drop_last(),
        old(deck).cards@.len() > 0 ==> final(hand).cards@ == old(hand).cards@.push(
            old(deck).cards@.last(),
        ),
        old(deck).cards@.len() > 0 ==> final(hand).value == hit_value(
            *old(hand),
            old(deck).cards@.last(),
        ) && final(hand).aces == hit_aces(*old(hand), old(deck).cards@.last()),
        hand_wf(*final(hand)),
        cards_wf(final(deck).cards@),
{
    proof {
        if old(deck).cards@.len() > 0 {
            assert(card_wf(old(deck).cards@[old(deck).cards@.len() - 1]));
            assert(forall|i: int|
                0 <= i < old(deck).cards@.drop_last().len() ==> #[trigger] old(deck).cards@.drop_last()[i] == old(deck).cards@[i]);
        }
    }
    match deck.deal() {
        Ok(c) => {
            hand.add_card(c);
            hand.adjust_for_aces();
            Ok(())
        },
        Err(e) => Err(e),
    }
}

/// The `k`-th card dealt off the back of a pile (`k` counting from 1).
pub open spec fn dealt(cards: Seq<Card>, k: int) -> Card
    recommends
        1 <= k <= cards.len(),
{
    cards[cards.len() - k]
}

/// One round in flight: the pack it deals from, the two hands, and
/// where the round stands.
#[derive(Clone, Debug)]
pub struct Round {
    pub deck: Deck,
    pub player: Hand,
    pub dealer: Hand,
    pub state: RoundState,
}

/// A round is well formed when both hands and the deck hold well-formed
/// cards and together they hold at most the 52 cards of one pack.
pub open spec fn round_wf(r: Round) -> bool {
    &&& hand_wf(r.player)
    &&& hand_wf(r.dealer)
    &&& cards_wf(r.deck.cards@)
    &&& r.player.cards@.len() + r.dealer.cards@.len() + r.deck.cards@.len() <= 52
}

impl Round {
    /// Open a round on the given deck: deal two cards to the player,
    /// then two to the dealer, all off the back, and hand the turn to
    /// the player. A deck of fewer than four cards refuses with
    /// `DeckExhausted`.
    pub fn start(deck: Deck) -> (r: Result<Round, BlackjackError>)
        requires
            cards_wf(deck.cards@),
            deck.cards@.len() <= 52,
        ensures
            deck.cards@.len() < 4 ==> r == Err::<Round, BlackjackError>(
                BlackjackError::DeckExhausted,
            ),
            deck.cards@.len() >= 4 ==> (r matches Ok(rd)
                && round_wf(rd)
                && rd.state == RoundState::PlayerTurn
                && rd.deck.cards@ == deck.cards@.take(deck.cards@.len() - 4)
                && rd.player.cards@ == seq![dealt(deck.cards@, 1), dealt(deck.cards@, 2)]
                && rd.dealer.cards@ == seq![dealt(deck.cards@, 3), dealt(deck.cards@, 4)]
                && rd.player.value == dealt(deck.cards@, 1).value + dealt(deck.cards@, 2).value
                && rd.dealer.value == dealt(deck.cards@, 3).value + dealt(deck.cards@, 4).value
                && rd.player.aces == ace_one(dealt(deck.cards@, 1).rank)
                    + ace_one(dealt(deck.cards@, 2).rank)
                && rd.dealer.aces == ace_one(dealt(deck.cards@, 3).rank)
                    + ace_one(dealt(deck.cards@, 4).rank)),
    {
        let ghost orig: Seq<Card> = deck.cards@;
        let mut deck = deck;
        let mut player = Hand::new();
        let mut dealer = Hand::new();
        let c1 = match deck.deal() {
            Ok(c) => c,
            Err(e) => {
                return Err(e);
            },
        };
        proof {
            assert(card_wf(orig[orig.len() - 1]));
        }
        player.add_card(c1);
        let c2 = match deck.deal() {
            Ok(c) => c,
            Err(e) => {
                return Err(e);
            },
        };
        proof {
            assert(c2 == orig[orig.len() - 2]);
            assert(card_wf(orig[orig.len() - 2]));
        }
        player.add_card(c2);
        let c3 = match deck.deal() {
            Ok(c) => c,
            Err(e) => {
                return Err(e);
            },
        };
        proof {
            assert(c3 == orig[orig.len() - 3]);
            assert(card_wf(orig[orig.len() - 3]));
        }
        dealer.add_card(c3);
        let c4 = match deck.deal() {
            Ok(c) => c,
            Err(e) => {
                return Err(e);
            },
        };
        proof {
            assert(c4 == orig[orig.len() - 4]);
            assert(card_wf(orig[orig.len() - 4]));
        }
        dealer.add_card(c4);
        proof {
            assert(deck.cards@ =~= orig.take(orig.len() - 4));
            assert(player.cards@ =~= seq![c1, c2]);
            assert(dealer.cards@ =~= seq![c3, c4]);
            assert(forall|i: int|
                0 <= i < deck.cards@.len() ==> #[trigger] deck.cards@[i] == orig[i]);
        }
        Ok(Round { deck, player, dealer, state: RoundState::PlayerTurn })
    }

    /// Carry out one player decision. A stand hands the turn to the
    /// dealer — or, when the hand already shows more than 21, resolves
    /// the round at once as a player bust. A hit draws one card,
    /// offers the ace adjustment, and then makes the same bust check;
    /// short of a bust the turn stays with the player. Hitting on an
    /// empty deck refuses with `DeckExhausted` and changes nothing.
    pub fn player_choice(&mut self, choice: Choice) -> (r: Result<(), BlackjackError>)
        requires
            round_wf(*old(self)),
            old(self).state == RoundState::PlayerTurn,
        ensures
            round_wf(*final(self)),
            final(self).dealer == old(self).dealer,
            choice == Choice::Stand ==> r == Ok::<(), BlackjackError>(()) && final(self).deck == old(self).deck && final(self).player == old(self).player,
            choice == Choice::Stand && old(self).player.value > 21 ==> final(self).state
                == RoundState::Settled(Outcome::PlayerBusts),
            choice == Choice::Stand && old(self).player.value <= 21 ==> final(self).state
                == RoundState::DealerTurn,
            choice == Choice::Hit && old(self).deck.cards@.len() == 0 ==> r == Err::<
                (),
                BlackjackError,
            >(BlackjackError::DeckExhausted) && final(self).deck == old(self).deck && final(self).player == old(self).player && final(self).state == RoundState::PlayerTurn,
            choice == Choice::Hit && old(self).deck.cards@.len() > 0 ==> r == Ok::<
                (),
                BlackjackError,
            >(()) && final(self).deck.cards@ == old(self).deck.cards@.drop_last() && final(self).player.cards@ == old(self).player.cards@.push(old(self).deck.cards@.last()) && final(self).player.value == hit_value(old(self).player, old(self).deck.cards@.last()) && final(self).player.aces == hit_aces(old(self).player, old(self).deck.cards@.last()),
            choice == Choice::Hit && old(self).deck.cards@.len() > 0 && hit_value(
                old(self).player,
                old(self).deck.cards@.last(),
            ) > 21 ==> final(self).state == RoundState::Settled(Outcome::PlayerBusts),
            choice == Choice::Hit && old(self).deck.cards@.len() > 0 && hit_value(
                old(self).player,
                old(self).deck.cards@.last(),
            ) <= 21 ==> final(self).state == RoundState::PlayerTurn,
    {
        match choice {
            Choice::Stand => {
                if self.player.value > 21 {
                    self.state = RoundState::Settled(Outcome::PlayerBusts);
                } else {
                    self.state = RoundState::DealerTurn;
                }
                Ok(())
            },
            Choice::Hit => {
                if self.deck.cards.len() == 0 {
                    return Err(BlackjackError::DeckExhausted);
                }
                match hit(&mut self.deck, &mut self.player) {
                    Ok(()) => {},
                    Err(e) => {
                        return Err(e);
                    },
                }
                if self.player.value > 21 {
                    self.state = RoundState::Settled(Outcome::PlayerBusts);
                }
                Ok(())
            },
        }
    }

    /// Run the dealer's whole fixed policy: draw while the dealer's hand
    /// shows less than 17, never at 17 or above, then resolve the round
    /// by comparing the two hands. The deck running out mid-policy
    /// refuses with `DeckExhausted` and leaves the round unresolved.
    pub fn dealer_play(&mut self) -> (r: Result<(), BlackjackError>)
        requires
            round_wf(*old(self)),
            old(self).state == RoundState::DealerTurn,
        ensures
            round_wf(*final(self)),
            final(self).player == old(self).player,
            old(self).dealer.cards@.is_prefix_of(final(self).dealer.cards@),
            r is Ok ==> final(self).dealer.value >= 17 && final(self).state == RoundState::Settled(
                outcome_of(final(self).player.value as int, final(self).dealer.value as int),
            ),
            old(self).dealer.value >= 17 ==> r == Ok::<(), BlackjackError>(()) && final(self).dealer.cards@ == old(self).dealer.cards@ && final(self).dealer.value == old(self).dealer.value && final(self).deck.cards@ == old(self).deck.cards@,
            r is Err ==> r == Err::<(), BlackjackError>(BlackjackError::DeckExhausted) && final(self).deck.cards@.len() == 0 && final(self).dealer.value < 17 && final(self).state
                == RoundState::DealerTurn,
            r is Ok && old(self).dealer.value < 17 ==> final(self).dealer.cards@.len() > old(self).dealer.cards@.len() && final(self).dealer.value <= 26,
    {
        while self.dealer.value < 17
            invariant
                round_wf(*self),
                self.player == old(self).player,
                self.state == old(self).state,
                old(self).state == RoundState::DealerTurn,
                old(self).dealer.cards@.is_prefix_of(self.dealer.cards@),
                old(self).dealer.value >= 17 ==> self.dealer.cards@ == old(self).dealer.cards@
                    && self.dealer.value == old(self).dealer.value && self.deck.cards@ == old(self).deck.cards@,
                self.dealer.cards@.len() == old(self).dealer.cards@.len() ==> self.dealer.value
                    == old(self).dealer.value,
                self.dealer.cards@.len() > old(self).dealer.cards@.len() ==> self.dealer.value
                    <= 26,
            decreases self.deck.cards@.len(),
        {
            if self.deck.cards.len() == 0 {
                return Err(BlackjackError::DeckExhausted);
            }
            let ghost before: Seq<Card> = self.dealer.cards@;
            match hit(&mut self.deck, &mut self.dealer) {
                Ok(()) => {},
                Err(e) => {
                    return Err(e);
                },
            }
            proof {
                let k = old(self).dealer.cards@.len() as int;
                assert(self.dealer.cards@.subrange(0, k) =~= before.subrange(0, k));
                assert(old(self).dealer.cards@.is_prefix_of(self.dealer.cards@));
                assert(forall|r: Rank| 2 <= #[trigger] rank_value(r) <= 11);
            }
        }
        let outcome = decide_outcome(self.player.value, self.dealer.value);
        self.state = RoundState::Settled(outcome);
        Ok(())
    }
}

} // verus!
