//! A generic engine for grid-based, cellular-automaton-style simulations.
//!
//! A simulation author supplies a per-cell transition rule; the engine
//! supplies toroidal grid storage, neighborhood enumeration for a 4-way and
//! an 8-way topology, a two-phase cycle scheduler, and an exactly-once
//! payload-migration mechanism between neighboring cells.

pub mod grid;
pub mod moore;
pub mod neumann;
pub mod octo;
pub mod rules;
pub mod sim;
pub mod square;
