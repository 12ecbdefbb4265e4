use blackjack::cards::{Card, Rank, Suit};
use blackjack::chips::Chips;
use blackjack::hand::Hand;
use blackjack::BlackjackError;

#[test]
fn king_then_seven_scores_seventeen() {
    let mut hand = Hand::new();
    hand.add_card(Card::new(Suit::Hearts, Rank::King));
    hand.add_card(Card::new(Suit::Spades, Rank::Seven));
    assert_eq!(hand.value, 17);
    assert_eq!(hand.aces, 0);
}

#[test]
fn ace_then_king_scores_twenty_one_with_a_soft_ace() {
    let mut hand = Hand::new();
    hand.add_card(Card::new(Suit::Hearts, Rank::Ace));
    hand.add_card(Card::new(Suit::Spades, Rank::King));
    assert_eq!(hand.value, 21);
    assert_eq!(hand.aces, 1);
    hand.adjust_for_aces();
    assert_eq!(hand.value, 21);
    assert_eq!(hand.aces, 1);
}

#[test]
fn two_aces_and_a_king_adjust_one_ace_per_call() {
    let mut hand = Hand::new();
    hand.add_card(Card::new(Suit::Hearts, Rank::Ace));
    hand.add_card(Card::new(Suit::Spades, Rank::Ace));
    hand.add_card(Card::new(Suit::Clubs, Rank::King));
    assert_eq!(hand.value, 32);
    assert_eq!(hand.aces, 2);
    hand.adjust_for_aces();
    assert_eq!(hand.value, 22);
    assert_eq!(hand.aces, 1);
    hand.adjust_for_aces();
    assert_eq!(hand.value, 12);
    assert_eq!(hand.aces, 0);
}

#[test]
fn bet_above_the_balance_is_invalid() {
    let mut chips = Chips::new(100);
    assert_eq!(chips.place_bet(150), Err(BlackjackError::InvalidBet));
    assert_eq!(chips.total, 100);
    assert_eq!(chips.bet, 0);
}

#[test]
fn winning_then_losing_moves_the_bet_both_ways() {
    let mut chips = Chips::new(100);
    assert_eq!(chips.place_bet(50), Ok(()));
    chips.win_bet();
    assert_eq!(chips.total, 150);
    assert_eq!(chips.place_bet(50), Ok(()));
    chips.lose_bet();
    assert_eq!(chips.total, 100);
}
