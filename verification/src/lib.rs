//! Core simulation of a lane-dodging game: a player car sits in one of two
//! lanes and is steered by a remotely supplied integer signal, while obstacles
//! descend from the top of the playfield, are evicted once they fall past a
//! despawn threshold, and end the game on collision with the player's box.
//!
//! Everything here is pure state-machine logic over integer coordinates; the
//! host process (rendering, timers, the network poll) drives it from outside.

pub mod collision;
pub mod laws;
pub mod obstacle;
pub mod player;
mod rng;
pub mod signal;
pub mod sim;
