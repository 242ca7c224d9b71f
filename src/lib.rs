//! Per-frame character motion: sampling directional input into movement
//! intents and resolving those intents against a stepped or a dynamic body.
//!
//! Directions are fixed point: a length of `1.0` is [`vector::ONE`]
//! micro-units. A speed is in micro-units per second and elapsed time is in
//! microseconds; translations and velocities are exact products of the three,
//! in the fine units of [`motion::Motion`].

pub mod vector;
pub mod intent;
pub mod input;
pub mod stats;
pub mod motion;
pub mod character;
pub mod game_state;
