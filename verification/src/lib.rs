//! Scoring of one round of a poker-based card game: the played cards are
//! classified into a poker hand, the owned jokers are filtered down to
//! those the hand activates, and the chips and the multiplier are
//! accumulated in a fixed order of passes.

pub mod cards;
pub mod hand_laws;
pub mod jokers;
pub mod pokerhand;
pub mod score_laws;
pub mod sorce;
