//! Authoritative simulation core for a networked multiplayer action game.
//!
//! The server owns the single source of truth for all entities (players,
//! projectiles, obstacles). Each tick it ingests decoded client commands,
//! advances movement, weapons, collisions, health and lifespans, and
//! computes the outbound delta broadcast to every client.
//!
//! All geometry is held in deterministic fixed-point integers; the
//! presentation layer converts to floating point at the edge.

pub mod math;
pub mod movement;
pub mod weapon;
pub mod health;
pub mod collision;
pub mod world;
pub mod systems;
pub mod session;
pub mod broadcast;
pub mod events;
