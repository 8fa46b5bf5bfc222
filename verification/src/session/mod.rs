//! Client sessions and their parameters.

pub mod command_laws;
pub mod laws;
pub mod params;
pub mod store;
