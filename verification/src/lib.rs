//! Cribbage game domain: cards, scoring, the pegging play, the scoreboard and
//! the game state machine that turns commands into events and folds events
//! into game state.

pub mod display;
pub mod domain;
pub mod ids;
pub mod names;
pub mod notification;
pub mod storage;
