//! Authoritative core of a fixed-tick multiplayer simulation server.
//!
//! All world coordinates, velocities and distances are fixed-point integers in
//! milli-units: one world unit is 1000. The core owns the canonical entity
//! world, advances it at a fixed tick rate, applies client commands, resolves
//! lag-compensated hit detection against a bounded snapshot history, and
//! produces per-tick delta payloads. Transport, byte encoding and process
//! configuration live outside this crate.

pub mod aoi;
pub mod combat;
pub mod components;
pub mod history;
pub mod input;
pub mod math;
pub mod movement;
pub mod protocol;
pub mod replication;
pub mod scheduler;
pub mod world;
