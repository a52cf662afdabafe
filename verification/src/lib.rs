//! A turn-based, dice-driven combat engine.
//!
//! A single authoritative world owns the combatants, their dice pools, the
//! current phase and the combat log.  External inputs arrive as client
//! messages; the game-loop driver runs the phase systems in fixed order until
//! the materialized client snapshot stops changing, and the resulting
//! snapshot is handed back for delivery to clients.

pub mod action_system;
pub mod combat_state;
pub mod combatant;
pub mod components;
pub mod drafting_system;
pub mod dice;
pub mod errors;
pub mod events;
pub mod laws;
pub mod log;
pub mod materialize_system;
mod rng;
pub mod server;
pub mod rolling_system;
pub mod shared;
pub mod world;
