//! Gamevim: a terminal game that teaches Vim habits through short, replayable
//! lessons.
//!
//! This crate holds the rules of the game: what a typed command means, how the
//! three kinds of level are generated and played, how progress unlocks lessons,
//! and what every screen shows. Drawing, key reading and the progress file belong
//! to the program around it.

pub mod board;
pub mod carving;
pub mod catalog;
pub mod command;
pub mod curriculum;
pub mod edit;
pub mod grid;
pub mod hints;
pub mod key;
pub mod layout;
pub mod lessons;
pub mod level;
pub mod maze;
pub mod menu;
pub mod play;
pub mod pos;
pub mod progress;
pub mod rails;
pub mod reach;
pub mod rng;
pub mod screens;
pub mod session;
pub mod single;
pub mod surgery;
pub mod text;
pub mod time;
pub mod token;

