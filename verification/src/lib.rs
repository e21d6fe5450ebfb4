//! Conway's Game of Life on a torus, and the window it is played in.
//!
//! `GameOfLife` is the game; `board` holds its model. `AppState` is the window:
//! its events are calls, and what the caller has to send out comes back as
//! results; `model` holds its model. `laws` holds what is proved of both.

pub mod app_state;
pub mod board;
pub mod canvas;
pub mod cell;
pub mod game;
pub mod glider;
pub mod keys;
pub mod laws;
pub mod model;
pub mod pool;

pub use crate::app_state::AppState;
pub use crate::cell::Cell;
pub use crate::game::GameOfLife;
