//! Discrete core of an event-driven simulator of hard elastic disks.
//!
//! The simulator advances time in fixed ticks and processes predicted
//! collision events in temporal order.  This crate holds the parts of the
//! engine that are exact: the collision records and their order-insensitive
//! pair identity, the event queue, the per-particle collision counters with
//! their staleness test, the per-tick in-flight deduplication, the game-mode
//! overlay with its one-shot signed result, and the score-submission check.
//! The floating-point geometry (hit-time prediction and post-collision
//! velocities) lives with the host, which feeds its outcomes to this engine.

pub mod bytes;
pub mod collisions;
pub mod color;
pub mod events;
pub mod game;
pub mod simulation;
pub mod submit;
