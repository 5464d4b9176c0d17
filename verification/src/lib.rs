//! A grid snake game as a verified state machine: key handling, movement,
//! collisions, food placement, growth, score and speed.
pub mod direction;
pub mod field;
pub mod snake;
pub mod food;
pub mod game;
