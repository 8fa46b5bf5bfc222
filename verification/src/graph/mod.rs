//! Graph adjacency, a transaction's staged edges, and traversals over both.

pub mod csr;
pub mod laws;
pub mod order_laws;
pub mod overlay_delta;
pub mod step_laws;
pub mod traversal_overlay;
pub mod walk;
