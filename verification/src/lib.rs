use vstd::prelude::*;

pub mod cards;
pub mod chips;
pub mod deck;
pub mod hand;
pub mod round;
pub mod text;

verus! {

/// Everything that can go wrong while a round is driven forward.
///
/// `InvalidBet` and `MalformedBetInput` are recovered by re-prompting the
/// player; `UnrecognizedChoice` re-prompts during the player's turn;
/// `DeckExhausted` ends the round, since no further card can be dealt.
#[derive(Copy, Clone, Debug, PartialEq, Eq, Structural)]
pub enum BlackjackError {
    InvalidBet,
    UnrecognizedChoice,
    DeckExhausted,
    MalformedBetInput,
}

} // verus!
