use vstd::prelude::*;

verus! {

/// The four French suits of a standard deck.
#[derive(Copy, Clone, Debug, PartialEq, Eq, Structural)]
pub enum Suit {
    Hearts,
    Diamonds,
    Spades,
    Clubs,
}

/// The thirteen ranks, from the lowest pip card up to the ace.
#[derive(Copy, Clone, Debug, PartialEq, Eq, Structural)]
pub enum Rank {
    Two,
    Three,
    Four,
    Five,
    Six,
    Seven,
    Eight,
    Nine,
    Ten,
    Jack,
    Queen,
    King,
    Ace,
}

/// The blackjack value of a rank: pip cards count their face number,
/// face cards count 10, and an ace counts 11 (the "high" reading; a hand
/// may later re-count one of its aces as 1, see `Hand::adjust_for_aces`).
pub open spec fn rank_value(r: Rank) -> int {
    match r {
        Rank::Two => 2,
        Rank::Three => 3,
        Rank::Four => 4,
        Rank::Five => 5,
        Rank::Six => 6,
        Rank::Seven => 7,
        Rank::Eight => 8,
        Rank::Nine => 9,
        Rank::Ten => 10,
        Rank::Jack => 10,
        Rank::Queen => 10,
        Rank::King => 10,
        Rank::Ace => 11,
    }
}

/// The fixed rank-to-value mapping, spelled out: every pip rank is worth
/// its face number, every face rank 10, and the ace 11 — never anything
/// else, for any rank.
pub proof fn lemma_rank_value_mapping()
    ensures
        rank_value(Rank::Two) == 2,
        rank_value(Rank::Three) == 3,
        rank_value(Rank::Four) == 4,
        rank_value(Rank::Five) == 5,
        rank_value(Rank::Six) == 6,
        rank_value(Rank::Seven) == 7,
        rank_value(Rank::Eight) == 8,
        rank_value(Rank::Nine) == 9,
        rank_value(Rank::Ten) == 10,
        rank_value(Rank::Jack) == 10,
        rank_value(Rank::Queen) == 10,
        rank_value(Rank::King) == 10,
        rank_value(Rank::Ace) == 11,
        forall|r: Rank| 2 <= #[trigger] rank_value(r) <= 11,
{
}

/// 1 for an ace, 0 for every other rank; how much one card moves a
/// hand's soft-ace count.
pub open spec fn ace_one(r: Rank) -> int {
    if r == Rank::Ace {
        1
    } else {
        0
    }
}

/// One playing card. The `value` field caches the blackjack value of the
/// rank; a well-formed card (see `card_wf`) never disagrees with its rank.
#[derive(Copy, Clone, Debug, PartialEq, Eq, Structural)]
pub struct Card {
    pub suit: Suit,
    pub rank: Rank,
    pub value: i32,
}

/// A card is well formed when its cached value is exactly the value of
/// its rank.
pub open spec fn card_wf(c: Card) -> bool {
    c.value == rank_value(c.rank)
}

impl Card {
    /// Recompute the cached blackjack value from the rank, leaving suit
    /// and rank untouched.
    pub fn set_value(&mut self)
        ensures
            final(self).suit == old(self).suit,
            final(self).rank == old(self).rank,
            card_wf(*final(self)),
    {
        match self.rank {
            Rank::Two => { self.value = 2; }
            Rank::Three => { self.value = 3; }
            Rank::Four => { self.value = 4; }
            Rank::Five => { self.value = 5; }
            Rank::Six => { self.value = 6; }
            Rank::Seven => { self.value = 7; }
            Rank::Eight => { self.value = 8; }
            Rank::Nine => { self.value = 9; }
            Rank::Ten => { self.value = 10; }
            Rank::Jack => { self.value = 10; }
            Rank::Queen => { self.value = 10; }
            Rank::King => { self.value = 10; }
            Rank::Ace => { self.value = 11; }
        }
    }

    /// Build a card whose cached value is already set from its rank.
    pub fn new(suit: Suit, rank: Rank) -> (c: Card)
        ensures
            c.suit == suit,
            c.rank == rank,
            card_wf(c),
    {
        let mut c = Card { suit, rank, value: 0 };
        c.set_value();
        c
    }
}

} // verus!
