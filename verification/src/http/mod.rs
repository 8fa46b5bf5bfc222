//! The HTTP interface: who a request comes from, and how statements are run for it.

pub mod answer_laws;
pub mod auth;
pub mod auth_laws;
pub mod dispatch;
pub mod headers;
pub mod json;
pub mod laws;
pub mod materialized;
pub mod ndjson;
