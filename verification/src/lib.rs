//! Border Patrol: a two-player line-drawing game on a 10x10 grid of boxes.
//!
//! Players take turns drawing the lines between neighbouring boxes.  Whoever
//! draws the last open side of a box captures it and moves again.  The game
//! ends when one player holds more than half of the boxes, or both hold
//! exactly half.
pub mod ai;
pub mod board;
pub mod engine;
pub mod game;
pub mod grid;
pub mod laws;
pub mod moves;
pub mod player;
pub mod rules;
pub mod terminal;
