//! A turn-based light-cycle game on a grid: players leave permanent walls
//! behind them and are eliminated when they run into a wall or the boundary.
//!
//! The crate holds the game rules, a flood-fill estimate of the space a
//! player can still reach, an anytime adversarial search built on both, and
//! the decisions of the turn protocol between a match and its players.
//!
//! - [`game`] is the grid engine: the state of a match and its transition.
//! - [`model`] says what a state is as a mathematical value, when it is
//!   well formed and what a turn does to it; [`laws`] proves what holds of
//!   every match, and [`cells`] counts the cells of a board.
//! - [`util`] is the space estimator.
//! - [`score`] and [`behaviour`] are the search and the other strategies.
//! - [`worker`] and [`orchestrator`] are the two sides of the turn protocol.
pub mod behaviour;
pub mod cells;
pub mod game;
pub mod laws;
pub mod model;
pub mod orchestrator;
pub mod score;
pub mod util;
pub mod worker;
