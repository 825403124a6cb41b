//! A verified model of a grid-based snake game.
//!
//! The snake is an ordered sequence of grid cells (head first) together with
//! a heading; the game state machine owns the snake, the food slot, the grid
//! bounds, the game-over flag and a millisecond wait timer. Every state
//! transition is specified and proved; only the random draw used for food
//! placement is taken on trust from the `rand` crate.

pub mod draw;
pub mod game;
pub mod snake;
