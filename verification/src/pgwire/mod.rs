//! Responses in the PostgreSQL wire protocol.

pub mod laws;
pub mod plan;
pub mod transaction;
