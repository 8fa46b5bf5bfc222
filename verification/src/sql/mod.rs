//! Planning of statements that change data.

pub mod double;
pub mod double_laws;
pub mod error;
pub mod expr;
pub mod insert_laws;
pub mod kv;
pub mod laws;
pub mod meaning;
pub mod plan;
pub mod qualified;
pub mod value;
pub mod value_laws;
pub mod vector;
