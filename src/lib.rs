//! Scoring of one round of a card-matching game: hand classification,
//! joker resolution and the ordered application of every bonus.

pub mod card;
pub mod counts;
pub mod jokers;
pub mod hands;
pub mod effects;
pub mod scorer;
