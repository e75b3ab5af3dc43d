//! A small gravitational N-body simulator: a population of massless dust
//! particles is attracted by stars and black holes, advanced one frame at a
//! time by a host-driven update call.
//!
//! All state is kept in fixed-point integer coordinates (see [`fixed`]) so
//! that every step of the simulation is exact and fully specified.

pub mod fixed;
pub mod laws;
pub mod rng;
pub mod sim;

pub use sim::BlackHole;
pub use sim::Particle;
pub use sim::Star;
pub use sim::Universe;
