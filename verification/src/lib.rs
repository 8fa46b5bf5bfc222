//! Control-plane core of a multi-model database server, verified with Verus.

pub mod text;
pub mod text_laws;
pub mod text_map;

pub mod error;
pub mod graph;
pub mod http;
pub mod identity;
pub mod lists;
pub mod pgwire;
pub mod plan;
pub mod session;
pub mod sql;
pub mod sync;
