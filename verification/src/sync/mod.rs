//! Synchronisation with remote replicas.

pub mod handshake;
pub mod laws;
pub mod session;
pub mod wire;
