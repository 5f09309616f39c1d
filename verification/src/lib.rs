//! Dyadic exchange engine for a peer-to-peer exchange economy of agents with
//! Cobb–Douglas preferences.
//!
//! This crate holds the verified core of the simulator: configuration
//! validation, the pairing-mode policy, the pruned candidate-goods ranking,
//! and the deterministic encounter schedule that drives repeated randomized
//! agent pairings. The floating-point demand computations that surround this
//! core live with the callers of the library.

pub mod model;
pub mod pareto_oracle;
pub mod sim;
pub mod trade;
