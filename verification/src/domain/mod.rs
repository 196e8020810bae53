pub mod cards;
pub mod pile;
pub mod players;
pub mod scoring;
pub mod plays;
pub mod scoreboard;
pub mod deck;
pub mod state;
pub mod game;
pub mod properties;
pub mod available_game;
pub mod play_computer;
