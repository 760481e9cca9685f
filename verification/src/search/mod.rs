//! The search's parameters.
//!
//! The search itself (negamax, quiescence search, the controller loop) is not
//! here: it plays and generates moves through the engine's `chess` crate,
//! which is not available.
pub mod params;
