//! The rules of a block-breaking arcade game: a paddle keeps a ball in play
//! while the ball clears a field of blocks, level after level.
//!
//! Everything is computed on a fixed-point play field. One logical unit of
//! the field is [`field::UNIT`] sub-units, a million of them, and every
//! position and velocity is an integer number of sub-units, so that each
//! rule has an exact statement.

pub mod field;
pub mod level;
pub mod motion;
pub mod play;
pub mod laws;
pub mod screens;
pub mod scene;
