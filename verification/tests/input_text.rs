use blackjack::round::Choice;
use blackjack::text::{is_play_again, parse_bet, parse_choice};
use blackjack::BlackjackError;

#[test]
fn parse_choice_reads_the_two_literals() {
    assert_eq!(parse_choice("h"), Ok(Choice::Hit));
    assert_eq!(parse_choice("s"), Ok(Choice::Stand));
}

#[test]
fn parse_choice_refuses_anything_else() {
    assert_eq!(parse_choice(""), Err(BlackjackError::UnrecognizedChoice));
    assert_eq!(parse_choice("hit"), Err(BlackjackError::UnrecognizedChoice));
    assert_eq!(parse_choice("H"), Err(BlackjackError::UnrecognizedChoice));
    assert_eq!(parse_choice("x"), Err(BlackjackError::UnrecognizedChoice));
}

#[test]
fn play_again_takes_only_the_literal_y() {
    assert!(is_play_again("y"));
    assert!(!is_play_again("n"));
    assert!(!is_play_again("yes"));
    assert!(!is_play_again(""));
}

#[test]
fn parse_bet_reads_digit_runs_exactly() {
    assert_eq!(parse_bet("0"), Ok(0));
    assert_eq!(parse_bet("50"), Ok(50));
    assert_eq!(parse_bet("007"), Ok(7));
    assert_eq!(parse_bet("2147483647"), Ok(i32::MAX));
}

#[test]
fn parse_bet_refuses_malformed_input() {
    assert_eq!(parse_bet(""), Err(BlackjackError::MalformedBetInput));
    assert_eq!(parse_bet("12a"), Err(BlackjackError::MalformedBetInput));
    assert_eq!(parse_bet("-5"), Err(BlackjackError::MalformedBetInput));
    assert_eq!(parse_bet(" 5"), Err(BlackjackError::MalformedBetInput));
    assert_eq!(parse_bet("2147483648"), Err(BlackjackError::MalformedBetInput));
}
