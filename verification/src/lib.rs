//! Deterministic streaming of a tile world around a moving viewer.
//!
//! The crate generates terrain data for grid-aligned chunks from a fixed
//! seed, caches the generated buffers under a bounded memory budget with
//! least-recently-used eviction, and decides each tick which chunks must be
//! spawned or despawned as the viewer moves and zooms.

pub mod cache;
pub mod config;
pub mod coords;
pub mod director;
pub mod generator;
pub mod movement;
