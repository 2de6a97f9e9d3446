//! Core of a small arcade game: a player-controlled ship moves inside a
//! fixed 600 by 600 arena, asteroids drift down from the top, and the ship
//! fires projectiles that destroy asteroids on contact.
//!
//! The library owns the whole per-frame update cycle — player movement with
//! wall clamping, entity motion, timed spawning, off-screen pruning,
//! all-pairs collision marking and the following sweep — and states it
//! against a mathematical model of the simulation state. Drawing and input
//! polling stay outside; the library only hands out a list of rectangles
//! with colors once per frame.

pub mod entity;
pub mod geom;
pub mod laws;
pub mod sim;
