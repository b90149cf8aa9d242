//! Deterministic lockstep core for a two-peer action game.
//!
//! Two peers run the same simulation from shared per-tick input records and
//! must stay bit-identical. This crate holds the pieces that carry that
//! burden: the canonical input record and its codec, the touch gesture
//! interpreter, the deterministic random number generator, the rollback
//! state registry and simulation step, and the session roster logic.
//! Geometry runs on fixed-point integers so that no floating-point
//! operation can diverge across peers.

pub mod angle;
pub mod animation;
pub mod collision;
pub mod component;
pub mod error;
pub mod input;
pub mod map;
pub mod rand;
pub mod session;
pub mod sim;
pub mod touch;
