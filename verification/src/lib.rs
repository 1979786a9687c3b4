//! Core of a grid-based snake simulation: a single chain of segments moves on
//! a fixed toroidal grid, grows when it reaches food, and ends the episode
//! when it collides with itself. Rendering and raw input plumbing live
//! outside this crate; the simulation is driven through plain values.

pub mod geometry;
pub mod snake;
pub mod input;
pub mod food;
pub mod game;
