//! The simulation core of a terminal snake game, verified with Verus.
//!
//! - `config`: constants, the four directions and the settings.
//! - `grid`: cells, rectangles and wrapping.
//! - `text`: white space in texts read from files.
//! - `random`: the random draws.
//! - `snake`: the snake, its turn queue and its movement.
//! - `game_map`: the board with walls, bonus food and shrinking border.
//! - `input`: what a key press means.
//! - `game`: a game in progress and what a tick does to it.
//! - `frame`: what each cell of the board shows.
//! - `highscore`, `menu`, `replay`: the best score, the start menu, and
//!   recordings of games.

pub mod config;
pub mod grid;
pub mod text;
pub mod random;
pub mod snake;
pub mod game_map;
pub mod input;
pub mod game;
pub mod frame;
pub mod highscore;
pub mod menu;
pub mod replay;
