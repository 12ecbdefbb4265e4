use blackjack::cards::{Card, Rank, Suit};
use blackjack::chips::Chips;
use blackjack::deck::Deck;
use blackjack::hand::Hand;
use blackjack::round::{
    decide_outcome, hit, settle, Choice, Outcome, Round, RoundState,
};
use blackjack::BlackjackError;

fn hand_of(ranks: &[Rank]) -> Hand {
    let mut hand = Hand::new();
    for rank in ranks {
        hand.add_card(Card::new(Suit::Clubs, *rank));
    }
    hand
}

#[test]
fn settlement_outcomes_cover_all_four_cases() {
    assert_eq!(decide_outcome(20, 22), Outcome::DealerBusts);
    assert_eq!(decide_outcome(18, 20), Outcome::DealerWins);
    assert_eq!(decide_outcome(20, 18), Outcome::PlayerWins);
    assert_eq!(decide_outcome(19, 19), Outcome::Push);
}

#[test]
fn settle_moves_the_ledger_by_the_outcome() {
    let mut chips = Chips::new(100);
    assert_eq!(chips.place_bet(30), Ok(()));
    settle(Outcome::DealerBusts, &mut chips);
    assert_eq!(chips.total, 130);
    settle(Outcome::PlayerWins, &mut chips);
    assert_eq!(chips.total, 160);
    settle(Outcome::DealerWins, &mut chips);
    assert_eq!(chips.total, 130);
    settle(Outcome::PlayerBusts, &mut chips);
    assert_eq!(chips.total, 100);
    settle(Outcome::Push, &mut chips);
    assert_eq!(chips.total, 100);
    assert_eq!(chips.bet, 30);
}

#[test]
fn hit_draws_the_last_card_and_adjusts() {
    let mut deck = Deck { cards: vec![Card::new(Suit::Hearts, Rank::King)] };
    let mut hand = hand_of(&[Rank::Ace, Rank::Five]);
    assert_eq!(hand.value, 16);
    assert_eq!(hit(&mut deck, &mut hand), Ok(()));
    assert_eq!(hand.value, 16);
    assert_eq!(hand.aces, 0);
    assert_eq!(deck.cards.len(), 0);
    assert_eq!(hit(&mut deck, &mut hand), Err(BlackjackError::DeckExhausted));
    assert_eq!(hand.value, 16);
}

#[test]
fn dealer_draws_to_seventeen_and_stops_at_the_first_crossing() {
    // Dealer starts at 12; the deck fixes the draws to 5 then 4, so the
    // dealer reaches 17 and must not draw the second card.
    let deck = Deck {
        cards: vec![Card::new(Suit::Hearts, Rank::Four), Card::new(Suit::Hearts, Rank::Five)],
    };
    let mut round = Round {
        deck,
        player: hand_of(&[Rank::King, Rank::Queen]),
        dealer: hand_of(&[Rank::Seven, Rank::Five]),
        state: RoundState::DealerTurn,
    };
    assert_eq!(round.dealer_play(), Ok(()));
    assert_eq!(round.dealer.value, 17);
    assert_eq!(round.dealer.cards.len(), 3);
    assert_eq!(round.deck.cards.len(), 1);
    assert_eq!(round.state, RoundState::Settled(Outcome::PlayerWins));
}

#[test]
fn dealer_never_draws_at_seventeen_or_above() {
    let deck = Deck { cards: vec![Card::new(Suit::Hearts, Rank::Two)] };
    let mut round = Round {
        deck,
        player: hand_of(&[Rank::King, Rank::Nine]),
        dealer: hand_of(&[Rank::King, Rank::Seven]),
        state: RoundState::DealerTurn,
    };
    assert_eq!(round.dealer_play(), Ok(()));
    assert_eq!(round.dealer.cards.len(), 2);
    assert_eq!(round.deck.cards.len(), 1);
    assert_eq!(round.state, RoundState::Settled(Outcome::PlayerWins));
}

#[test]
fn start_deals_player_first_then_dealer_off_the_back() {
    let hit_card = Card::new(Suit::Hearts, Rank::Seven);
    let dealer_second = Card::new(Suit::Diamonds, Rank::Nine);
    let dealer_first = Card::new(Suit::Spades, Rank::Eight);
    let player_second = Card::new(Suit::Clubs, Rank::Seven);
    let player_first = Card::new(Suit::Hearts, Rank::King);
    let deck = Deck { cards: vec![hit_card, dealer_second, dealer_first, player_second, player_first] };
    let round = Round::start(deck).expect("five cards are enough");
    assert_eq!(round.player.cards, vec![player_first, player_second]);
    assert_eq!(round.dealer.cards, vec![dealer_first, dealer_second]);
    assert_eq!(round.deck.cards.len(), 1);
    assert_eq!(round.state, RoundState::PlayerTurn);
}

#[test]
fn starting_on_a_short_deck_is_deck_exhausted() {
    let deck = Deck {
        cards: vec![
            Card::new(Suit::Hearts, Rank::Two),
            Card::new(Suit::Hearts, Rank::Three),
            Card::new(Suit::Hearts, Rank::Four),
        ],
    };
    assert!(matches!(Round::start(deck), Err(BlackjackError::DeckExhausted)));
}

#[test]
fn player_bust_short_circuits_settlement_and_leaves_dealer_as_dealt() {
    // Player holds King + Seven (17) and draws a Seven: 24, an immediate
    // bust. The dealer's turn never runs and the bet is lost at once.
    let hit_card = Card::new(Suit::Hearts, Rank::Seven);
    let dealer_second = Card::new(Suit::Diamonds, Rank::Nine);
    let dealer_first = Card::new(Suit::Spades, Rank::Eight);
    let player_second = Card::new(Suit::Clubs, Rank::Seven);
    let player_first = Card::new(Suit::Hearts, Rank::King);
    let deck = Deck { cards: vec![hit_card, dealer_second, dealer_first, player_second, player_first] };
    let mut round = Round::start(deck).expect("five cards are enough");
    assert_eq!(round.player.value, 17);
    assert_eq!(round.player_choice(Choice::Hit), Ok(()));
    assert_eq!(round.player.value, 24);
    assert_eq!(round.state, RoundState::Settled(Outcome::PlayerBusts));
    assert_eq!(round.dealer.cards, vec![dealer_first, dealer_second]);
    let mut chips = Chips::new(100);
    assert_eq!(chips.place_bet(50), Ok(()));
    settle(Outcome::PlayerBusts, &mut chips);
    assert_eq!(chips.total, 50);
}

#[test]
fn standing_hands_the_turn_to_the_dealer() {
    let dealer_second = Card::new(Suit::Diamonds, Rank::Nine);
    let dealer_first = Card::new(Suit::Spades, Rank::Eight);
    let player_second = Card::new(Suit::Clubs, Rank::Seven);
    let player_first = Card::new(Suit::Hearts, Rank::King);
    let deck = Deck { cards: vec![dealer_second, dealer_first, player_second, player_first] };
    let mut round = Round::start(deck).expect("four cards are enough");
    assert_eq!(round.player_choice(Choice::Stand), Ok(()));
    assert_eq!(round.state, RoundState::DealerTurn);
    assert_eq!(round.player.cards, vec![player_first, player_second]);
}

#[test]
fn hitting_on_an_exhausted_deck_reports_the_error() {
    let dealer_second = Card::new(Suit::Diamonds, Rank::Nine);
    let dealer_first = Card::new(Suit::Spades, Rank::Eight);
    let player_second = Card::new(Suit::Clubs, Rank::Two);
    let player_first = Card::new(Suit::Hearts, Rank::Two);
    let deck = Deck { cards: vec![dealer_second, dealer_first, player_second, player_first] };
    let mut round = Round::start(deck).expect("four cards are enough");
    assert_eq!(round.player_choice(Choice::Hit), Err(BlackjackError::DeckExhausted));
    assert_eq!(round.state, RoundState::PlayerTurn);
    assert_eq!(round.player.cards, vec![player_first, player_second]);
}

#[test]
fn dealer_bust_resolves_in_the_players_favour() {
    // Dealer starts at 16 and must draw; the fixed next card is a King,
    // so the dealer busts at 26 and the player wins the bet.
    let deck = Deck { cards: vec![Card::new(Suit::Hearts, Rank::King)] };
    let mut round = Round {
        deck,
        player: hand_of(&[Rank::King, Rank::Nine]),
        dealer: hand_of(&[Rank::King, Rank::Six]),
        state: RoundState::DealerTurn,
    };
    assert_eq!(round.dealer_play(), Ok(()));
    assert_eq!(round.dealer.value, 26);
    assert_eq!(round.state, RoundState::Settled(Outcome::DealerBusts));
    let mut chips = Chips::new(100);
    assert_eq!(chips.place_bet(40), Ok(()));
    settle(Outcome::DealerBusts, &mut chips);
    assert_eq!(chips.total, 140);
}

#[test]
fn dealer_turn_on_an_empty_deck_reports_the_error() {
    let deck = Deck { cards: Vec::new() };
    let mut round = Round {
        deck,
        player: hand_of(&[Rank::King, Rank::Nine]),
        dealer: hand_of(&[Rank::King, Rank::Six]),
        state: RoundState::DealerTurn,
    };
    assert_eq!(round.dealer_play(), Err(BlackjackError::DeckExhausted));
    assert_eq!(round.state, RoundState::DealerTurn);
    assert_eq!(round.dealer.cards.len(), 2);
}
