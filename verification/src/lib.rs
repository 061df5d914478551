//! Block interaction and breaking rules for a voxel world server.
//!
//! The crate holds the decisions of a simulation tick as pure functions over
//! plain values: which target a ray selects, how breaking progress advances,
//! when a block is destroyed, and where and how a block is placed.  The host
//! performs the world reads beforehand and applies the returned commands.

pub mod breaking;
pub mod config;
pub mod display;
pub mod grid;
pub mod health;
pub mod interaction;
pub mod inventory;
pub mod laws;
pub mod mesh;
pub mod placement;
pub mod progress;
pub mod spawn;
pub mod store;
pub mod target;
