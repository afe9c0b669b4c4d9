//! Core simulation of a falling-block puzzle game: piece geometry and
//! rotation, the playfield with collision checks and row clearing, the
//! shuffled seven-piece bag, the score/level curve, and the game loop that
//! ties them together. Rendering, input devices and timers live outside;
//! they drive this core through a small command/query surface.

pub mod cell_events;
pub mod coord;
pub mod game;
pub mod piece;
pub mod piece_order;
pub mod piece_types;
pub mod playfield;
mod rng;
pub mod rotation;
pub mod score;
