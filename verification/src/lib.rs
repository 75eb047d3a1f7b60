//! Simulation core of a grid-based snake game.
//!
//! The crate holds the rules of the game: the board and its walls, the snake
//! body and its movement, queued turns, food placement, collisions, score,
//! difficulty and the game phases. Drawing, sound playback and key polling are
//! left to the host, which feeds [`game::FrameInput`] values in and reads
//! [`game::FrameReport`] values back.

pub mod board;
pub mod body;
pub mod food;
pub mod game;
pub mod grid;
pub mod input;
pub mod laws;
pub mod score;
pub mod state;
pub mod timer;
