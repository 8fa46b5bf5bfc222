//! Physical plans, as far as a response depends on them.

pub mod laws;
pub mod physical;
pub mod types;
