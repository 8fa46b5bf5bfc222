//! The operations that a physical plan is made of, with what the response to each depends on. An
//! operation that no rule tells apart from the others of its engine is `Other`.

use vstd::prelude::*;

verus! {

pub enum DocumentOp {
    PointGet,
    RangeScan,
    Scan,
    IndexedFetch,
    PointPut,
    PointInsert,
    BatchInsert,
    /// `returning` tells whether the statement asks for the rows that it changed.
    PointUpdate { returning: bool },
    BulkUpdate { returning: bool },
    PointDelete { returning: bool },
    BulkDelete { returning: bool },
    /// `resolve_only` tells whether the rows are only to be worked out, `source_rows` whether the
    /// rows of the source are already in the plan.
    UpdateFromJoin { returning: bool, resolve_only: bool, source_rows: bool },
    Truncate,
    InsertSelect,
    Upsert,
    /// `resolved_inserts` tells whether the rows to insert are already in the plan.
    Merge { resolve_only: bool, resolved_inserts: bool },
    Other,
}

pub enum CrdtOp {
    Read,
    GetPolicy,
    Other,
}

pub enum VectorOp {
    Search,
    Other,
}

pub enum GraphOp {
    Hop,
    Neighbors,
    Path,
    Subgraph,
    RagFusion,
    Algo,
    Match,
    MatchContinuation,
    MatchVarLenResume,
    BspSuperstep,
    WccSuperstep,
    Other,
}

pub enum ColumnarOp {
    Scan,
    Insert,
    Other,
}

pub enum TimeseriesOp {
    Scan,
    Other,
}

pub enum SpatialOp {
    Scan,
    Other,
}

pub enum KvOp {
    Scan,
    BatchGet,
    Get,
    FieldGet,
    Put,
    Insert,
    InsertIfAbsent,
    Delete,
    Other,
}

pub enum QueryOp {
    Aggregate,
    FacetCounts,
    HashJoin,
    RecursiveScan,
    RecursiveValue,
    LateralTopK,
    LateralLoop,
    ProviderScan,
    /// A plan whose rows are still to be exchanged between nodes.
    Exchange(Box<PhysicalPlan>),
    Other,
}

pub enum TextOp {
    Search,
    PhraseSearch,
    HybridSearch,
    HybridSearchTriple,
    BM25ScoreScan,
    FtsIndexDoc,
    FtsDeleteDoc,
    SetAnalyzer,
}

pub enum ArrayOp {
    Slice,
    Project,
    Aggregate,
    Elementwise,
    Flush,
    Compact,
    Other,
}

/// A plan for one engine.
pub enum PhysicalPlan {
    Document(DocumentOp),
    Vector(VectorOp),
    Graph(GraphOp),
    Kv(KvOp),
    Columnar(ColumnarOp),
    Timeseries(TimeseriesOp),
    Spatial(SpatialOp),
    Crdt(CrdtOp),
    Query(QueryOp),
    Text(TextOp),
    Meta,
    Array(ArrayOp),
    ClusterArray,
}

} // verus!
