//! The plans of statements that change data.

use vstd::prelude::*;

use super::kv::KvInsert;
use super::qualified::Resolved;
use super::value::SqlValue;
use super::vector::VectorPrimaryInsert;

verus! {

/// A plan.
pub enum SqlPlan {
    KvInsert(KvInsert),
    VectorPrimaryInsert(VectorPrimaryInsert),
    Update(Update),
    Delete(Delete),
}

/// The plan of an update.
#[derive(Debug)]
pub struct Update {
    pub collection: String,
    pub assignments: Vec<(String, Resolved)>,
    /// The keys that the condition picks out.
    pub keys: Vec<SqlValue>,
    pub filter: Option<Resolved>,
}

/// The plan of a deletion.
#[derive(Debug)]
pub struct Delete {
    pub collection: String,
    /// The keys that the condition picks out.
    pub keys: Vec<SqlValue>,
    pub filter: Option<Resolved>,
}

} // verus!
