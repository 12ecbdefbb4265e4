use vstd::prelude::*;
use vstd::arithmetic::div_mod::{lemma_fundamental_div_mod, lemma_fundamental_div_mod_converse};
use rand::seq::SliceRandom;
use crate::cards::{Card, Suit, Rank, card_wf, rank_value};
use crate::hand::cards_wf;
use crate::BlackjackError;

verus! {

/// The suit dealt into block `k` of a fresh deck (suit-major order, as
/// the deck is built).
pub open spec fn suit_of_index(k: int) -> Suit {
    if k == 0 {
        Suit::Hearts
    } else if k == 1 {
        Suit::Diamonds
    } else if k == 2 {
        Suit::Spades
    } else {
        Suit::Clubs
    }
}

/// The rank dealt into position `k` of each suit block of a fresh deck.
pub open spec fn rank_of_index(k: int) -> Rank {
    if k == 0 {
        Rank::Two
    } else if k == 1 {
        Rank::Three
    } else if k == 2 {
        Rank::Four
    } else if k == 3 {
        Rank::Five
    } else if k == 4 {
        Rank::Six
    } else if k == 5 {
        Rank::Seven
    } else if k == 6 {
        Rank::Eight
    } else if k == 7 {
        Rank::Nine
    } else if k == 8 {
        Rank::Ten
    } else if k == 9 {
        Rank::Jack
    } else if k == 10 {
        Rank::Queen
    } else if k == 11 {
        Rank::King
    } else {
        Rank::Ace
    }
}

/// Where a suit's block starts counting from, inverse of `suit_of_index`.
pub open spec fn suit_index(s: Suit) -> int {
    match s {
        Suit::Hearts => 0,
        Suit::Diamonds => 1,
        Suit::Spades => 2,
        Suit::Clubs => 3,
    }
}

/// A rank's position within a suit block, inverse of `rank_of_index`.
pub open spec fn rank_index(r: Rank) -> int {
    match r {
        Rank::Two => 0,
        Rank::Three => 1,
        Rank::Four => 2,
        Rank::Five => 3,
        Rank::Six => 4,
        Rank::Seven => 5,
        Rank::Eight => 6,
        Rank::Nine => 7,
        Rank::Ten => 8,
        Rank::Jack => 9,
        Rank::Queen => 10,
        Rank::King => 11,
        Rank::Ace => 12,
    }
}

/// The one position of a fresh deck that holds the given suit and rank.
pub open spec fn deck_index(s: Suit, r: Rank) -> int {
    suit_index(s) * 13 + rank_index(r)
}

/// The card a fresh deck holds at position `i`.
pub open spec fn fresh_card(i: int) -> Card {
    Card {
        suit: suit_of_index(i / 13),
        rank: rank_of_index(i % 13),
        value: rank_value(rank_of_index(i % 13)) as i32,
    }
}

/// All 52 cards of a fresh deck, in the order they are dealt in.
pub open spec fn full_deck() -> Seq<Card> {
    Seq::new(52, |i: int| fresh_card(i))
}

/// A fresh deck is the whole pack: 52 well-formed cards, and the
/// suit-and-rank pairs are in one-to-one correspondence with the
/// positions — every pair sits at its own position, and the position of
/// any card's pair is that card's position, so no pair repeats.
pub proof fn lemma_full_deck_complete()
    ensures
        full_deck().len() == 52,
        cards_wf(full_deck()),
        forall|s: Suit, r: Rank|
            0 <= #[trigger] deck_index(s, r) < 52 && full_deck()[deck_index(s, r)].suit == s
                && full_deck()[deck_index(s, r)].rank == r,
        forall|i: int|
            0 <= i < 52 ==> deck_index(#[trigger] full_deck()[i].suit, full_deck()[i].rank) == i,
        forall|i: int, j: int|
            #![trigger full_deck()[i], full_deck()[j]]
            0 <= i < 52 && 0 <= j < 52 && i != j ==> !(full_deck()[i].suit == full_deck()[j].suit
                && full_deck()[i].rank == full_deck()[j].rank),
{
    assert forall|s: Suit, r: Rank|
        0 <= #[trigger] deck_index(s, r) < 52 && full_deck()[deck_index(s, r)].suit == s
            && full_deck()[deck_index(s, r)].rank == r by {
        let si = suit_index(s);
        let ri = rank_index(r);
        lemma_fundamental_div_mod_converse(si * 13 + ri, 13, si, ri);
        assert(suit_of_index(si) == s);
        assert(rank_of_index(ri) == r);
    }
    assert forall|i: int|
        0 <= i < 52 implies deck_index(#[trigger] full_deck()[i].suit, full_deck()[i].rank)
        == i by {
        lemma_fundamental_div_mod(i, 13);
        assert(suit_index(suit_of_index(i / 13)) == i / 13);
        assert(rank_index(rank_of_index(i % 13)) == i % 13);
    }
    assert forall|i: int, j: int|
        #![trigger full_deck()[i], full_deck()[j]]
        0 <= i < 52 && 0 <= j < 52 && i != j implies !(full_deck()[i].suit == full_deck()[j].suit
        && full_deck()[i].rank == full_deck()[j].rank) by {
        if full_deck()[i].suit == full_deck()[j].suit && full_deck()[i].rank == full_deck()[j].rank {
            assert(deck_index(full_deck()[i].suit, full_deck()[i].rank) == i);
            assert(deck_index(full_deck()[j].suit, full_deck()[j].rank) == j);
        }
    }
}

/// The ordered pack the round deals from; cards leave from the back.
#[derive(Clone, Debug)]
pub struct Deck {
    pub cards: Vec<Card>,
}

/// Picks the suit a fresh deck deals into block `k`.
fn suit_at(k: usize) -> (s: Suit)
    requires
        k < 4,
    ensures
        s == suit_of_index(k as int),
{
    match k {
        0 => Suit::Hearts,
        1 => Suit::Diamonds,
        2 => Suit::Spades,
        _ => Suit::Clubs,
    }
}

/// Picks the rank a fresh deck deals into position `k` of a suit block.
fn rank_at(k: usize) -> (r: Rank)
    requires
        k < 13,
    ensures
        r == rank_of_index(k as int),
{
    match k {
        0 => Rank::Two,
        1 => Rank::Three,
        2 => Rank::Four,
        3 => Rank::Five,
        4 => Rank::Six,
        5 => Rank::Seven,
        6 => Rank::Eight,
        7 => Rank::Nine,
        8 => Rank::Ten,
        9 => Rank::Jack,
        10 => Rank::Queen,
        11 => Rank::King,
        _ => Rank::Ace,
    }
}

/// Relies on rand's `SliceRandom::shuffle` with `rand::thread_rng`: a
/// Fisher–Yates pass that only swaps elements of the slice in place, so
/// whatever order chance picks, the cards are permuted — none added,
/// none removed.
#[verifier::external_body]
fn shuffle_cards(cards: &mut Vec<Card>)
    ensures
        final(cards)@.to_multiset() == old(cards)@.to_multiset(),
        final(cards)@.len() == old(cards)@.len(),
{
    cards.shuffle(&mut rand::thread_rng());
}

impl Deck {
    /// Deal the whole fresh pack onto the back of this deck, suit by
    /// suit and rank by rank, every card already valued from its rank.
    pub fn new_deck(&mut self)
        ensures
            final(self).cards@ == old(self).cards@ + full_deck(),
    {
        let mut i: usize = 0;
        while i < 52
            invariant
                i <= 52,
                self.cards@ == old(self).cards@ + full_deck().take(i as int),
            decreases 52 - i,
        {
            let s = suit_at(i / 13);
            let r = rank_at(i % 13);
            let mut card = Card { suit: s, rank: r, value: 0 };
            card.set_value();
            self.cards.push(card);
            proof {
                assert(card == fresh_card(i as int));
                assert(full_deck().take(i as int + 1) =~= full_deck().take(i as int).push(
                    fresh_card(i as int),
                ));
                assert(self.cards@ =~= old(self).cards@ + full_deck().take(i as int + 1));
            }
            i = i + 1;
        }
        proof {
            assert(full_deck().take(52) =~= full_deck());
        }
    }

    /// Put the deck in a random order: afterwards it holds exactly the
    /// cards it held before, permuted by the injected randomness.
    pub fn shuffle(&mut self)
        ensures
            final(self).cards@.to_multiset() == old(self).cards@.to_multiset(),
            final(self).cards@.len() == old(self).cards@.len(),
    {
        shuffle_cards(&mut self.cards);
    }

    /// Remove and return the last card; an empty deck yields
    /// `DeckExhausted` and stays empty.
    pub fn deal(&mut self) -> (r: Result<Card, BlackjackError>)
        ensures
            old(self).cards@.len() > 0 ==> r == Ok::<Card, BlackjackError>(old(self).cards@.last())
                && final(self).cards@ == old(self).cards@.drop_last(),
            old(self).cards@.len() == 0 ==> r == Err::<Card, BlackjackError>(
                BlackjackError::DeckExhausted,
            ) && final(self).cards@ == old(self).cards@,
    {
        match self.cards.pop() {
            Some(c) => Ok(c),
            None => Err(BlackjackError::DeckExhausted),
        }
    }
}

} // verus!
