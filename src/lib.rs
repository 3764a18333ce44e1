//! A word-guessing game: scoring of guesses against a secret word, the
//! history of a round with its per-character aggregate, the share code of a
//! round, and the state machine that drives a round from loading to its end.

pub mod verdict;
pub mod text;
pub mod history;
pub mod assets;
pub mod game;
pub mod ui;
