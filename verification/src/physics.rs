//! The flight, contact and sinking model of a skipping stone.
pub mod derivative;
pub mod force_laws;
pub mod parameters;
pub mod simulation;
pub mod turn_laws;
