use vstd::prelude::*;
use crate::cards::{Card, Rank, ace_one, card_wf};

verus! {

/// The sum of the cached blackjack values of a sequence of cards.
pub open spec fn sum_values(s: Seq<Card>) -> int
    decreases s.len(),
{
    if s.len() == 0 {
        0
    } else {
        sum_values(s.drop_last()) + s.last().value
    }
}

/// How many cards of a sequence are aces.
pub open spec fn count_aces(s: Seq<Card>) -> int
    decreases s.len(),
{
    if s.len() == 0 {
        0
    } else {
        count_aces(s.drop_last()) + (if s.last().rank == Rank::Ace {
            1int
        } else {
            0int
        })
    }
}

/// Every card of the sequence carries the value of its rank.
pub open spec fn cards_wf(s: Seq<Card>) -> bool {
    forall|i: int| 0 <= i < s.len() ==> card_wf(#[trigger] s[i])
}

/// Bounds that well-formed cards force on the scoring sums: a card is
/// worth 2 to 11, and an ace re-counted as 1 is still worth at least 1.
pub proof fn lemma_value_bounds(s: Seq<Card>)
    requires
        cards_wf(s),
    ensures
        0 <= count_aces(s) <= s.len(),
        sum_values(s) <= 11 * s.len(),
        s.len() <= sum_values(s) - 10 * count_aces(s),
    decreases s.len(),
{
    if s.len() > 0 {
        assert(cards_wf(s.drop_last())) by {
            assert(forall|i: int|
                0 <= i < s.drop_last().len() ==> #[trigger] s.drop_last()[i] == s[i]);
        }
        lemma_value_bounds(s.drop_last());
        assert(card_wf(s.last()));
    }
}

/// The cards one participant holds, with the running blackjack value and
/// the number of aces still counted at 11.
#[derive(Clone, Debug)]
pub struct Hand {
    pub cards: Vec<Card>,
    pub value: i32,
    pub aces: i32,
}

/// A hand is well formed when its cards are well formed, at most a full
/// deck of them is held, and the bookkeeping fields agree with the cards:
/// `aces` counts the aces still read as 11, and `value` is the sum of the
/// card values with 10 subtracted for every ace already re-read as 1.
pub open spec fn hand_wf(h: Hand) -> bool {
    &&& cards_wf(h.cards@)
    &&& h.cards@.len() <= 52
    &&& 0 <= h.aces <= count_aces(h.cards@)
    &&& h.value == sum_values(h.cards@) - 10 * (count_aces(h.cards@) - h.aces)
}

/// The running value after one ace adjustment is offered: 10 less when the
/// hand is over 21 and still holds a soft ace, unchanged otherwise.
pub open spec fn value_after_adjust(v: int, a: int) -> int {
    if v > 21 && a > 0 {
        v - 10
    } else {
        v
    }
}

/// The soft-ace count after one ace adjustment is offered.
pub open spec fn aces_after_adjust(v: int, a: int) -> int {
    if v > 21 && a > 0 {
        a - 1
    } else {
        a
    }
}

impl Hand {
    /// An empty hand, worth nothing and holding no aces.
    pub fn new() -> (h: Hand)
        ensures
            hand_wf(h),
            h.cards@.len() == 0,
            h.value == 0,
            h.aces == 0,
    {
        Hand { cards: Vec::new(), value: 0, aces: 0 }
    }

    /// Append a card, add its value to the running total, and count it as
    /// a soft ace when it is one. No ace adjustment happens here.
    pub fn add_card(&mut self, card: Card)
        requires
            hand_wf(*old(self)),
            card_wf(card),
            old(self).cards@.len() < 52,
        ensures
            hand_wf(*final(self)),
            final(self).cards@ == old(self).cards@.push(card),
            final(self).value == old(self).value + card.value,
            final(self).aces == old(self).aces + ace_one(card.rank),
    {
        proof {
            lemma_value_bounds(self.cards@);
        }
        self.cards.push(card);
        self.value = self.value + card.value;
        if card.rank == Rank::Ace {
            self.aces = self.aces + 1;
        }
        proof {
            assert(self.cards@.drop_last() =~= old(self).cards@);
            assert(self.cards@.last() == card);
            assert(forall|i: int|
                0 <= i < old(self).cards@.len() ==> #[trigger] self.cards@[i]
                    == old(self).cards@[i]);
        }
    }

    /// Offer one soft-to-hard ace conversion: when the hand is over 21 and
    /// still holds a soft ace, re-count exactly one ace as 1 (10 off the
    /// value); otherwise leave the hand alone. At most one ace is
    /// converted per call, never a loop down to the minimum.
    pub fn adjust_for_aces(&mut self)
        requires
            hand_wf(*old(self)),
        ensures
            hand_wf(*final(self)),
            final(self).cards@ == old(self).cards@,
            final(self).value == value_after_adjust(old(self).value as int, old(self).aces as int),
            final(self).aces == aces_after_adjust(old(self).value as int, old(self).aces as int),
    {
        if self.value > 21 && self.aces > 0 {
            self.value = self.value - 10;
            self.aces = self.aces - 1;
        }
    }
}

} // verus!
