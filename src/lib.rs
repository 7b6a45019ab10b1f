//! A tic-tac-toe engine: a board whose state is derived from its cells
//! alone, agents that pick moves (random and exhaustive search), a game loop
//! and a tally of outcomes over many games.

pub mod agent;
pub mod game;
pub mod play;
pub mod render;
pub mod tictactoe;
