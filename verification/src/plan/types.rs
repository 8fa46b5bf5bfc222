//! What kind of result a plan gives, whatever the protocol.

use vstd::prelude::*;

use super::physical::{
    ArrayOp, ColumnarOp, CrdtOp, DocumentOp, GraphOp, KvOp, PhysicalPlan, QueryOp, SpatialOp,
    TextOp, TimeseriesOp, VectorOp,
};

verus! {

/// What kind of result a plan gives.
#[derive(Debug, Clone, Copy)]
pub enum PlanKind {
    SingleDocument,
    MultiRow,
    /// The cells of an array slice, which may come with a notice that they were cut off.
    ArraySlice,
    /// Nothing but that it was done.
    Execution,
    /// The number of rows that the named command changed.
    DmlResult(&'static str),
    /// The rows that a statement changed.
    ReturningRows,
}

/// What kind of result a plan gives, the command taken by its text.
pub enum KindView {
    SingleDocument,
    MultiRow,
    ArraySlice,
    Execution,
    DmlResult(Seq<char>),
    ReturningRows,
}

impl View for PlanKind {
    type V = KindView;

    open spec fn view(&self) -> KindView {
        match self {
            PlanKind::SingleDocument => KindView::SingleDocument,
            PlanKind::MultiRow => KindView::MultiRow,
            PlanKind::ArraySlice => KindView::ArraySlice,
            PlanKind::Execution => KindView::Execution,
            PlanKind::DmlResult(tag) => KindView::DmlResult(tag@),
            PlanKind::ReturningRows => KindView::ReturningRows,
        }
    }
}

/// The plan that is left once the exchanges around it are gone.
pub open spec fn unwrapped(plan: PhysicalPlan) -> PhysicalPlan
    decreases plan,
{
    match plan {
        PhysicalPlan::Query(QueryOp::Exchange(child)) => unwrapped(*child),
        _ => plan,
    }
}

/// Whether the plan gives one document.
pub open spec fn gives_one_document(plan: PhysicalPlan) -> bool {
    match plan {
        PhysicalPlan::Document(op) => op is PointGet,
        PhysicalPlan::Crdt(op) => op is Read || op is GetPolicy,
        PhysicalPlan::Kv(op) => op is Get || op is FieldGet,
        PhysicalPlan::Array(op) => op is Flush || op is Compact,
        _ => false,
    }
}

/// Whether the plan gives rows.
pub open spec fn gives_rows(plan: PhysicalPlan) -> bool {
    match plan {
        PhysicalPlan::Document(op) => op is RangeScan || op is Scan || op is IndexedFetch,
        PhysicalPlan::Vector(op) => op is Search,
        PhysicalPlan::Graph(op) => op !is Other,
        PhysicalPlan::Columnar(op) => op is Scan,
        PhysicalPlan::Timeseries(op) => op is Scan,
        PhysicalPlan::Spatial(op) => op is Scan,
        PhysicalPlan::Kv(op) => op is Scan || op is BatchGet,
        PhysicalPlan::Query(op) => op !is Other,
        PhysicalPlan::Text(op) => op !is SetAnalyzer,
        PhysicalPlan::Array(op) => op is Project || op is Aggregate || op is Elementwise,
        _ => false,
    }
}

/// The command whose row count the plan gives, unless it gives the rows themselves.
pub open spec fn dml_command(plan: PhysicalPlan) -> Option<Seq<char>> {
    match plan {
        PhysicalPlan::Document(DocumentOp::PointPut) => Some("INSERT"@),
        PhysicalPlan::Document(DocumentOp::PointInsert) => Some("INSERT"@),
        PhysicalPlan::Document(DocumentOp::BatchInsert) => Some("INSERT"@),
        PhysicalPlan::Document(DocumentOp::InsertSelect) => Some("INSERT"@),
        PhysicalPlan::Columnar(ColumnarOp::Insert) => Some("INSERT"@),
        PhysicalPlan::Document(DocumentOp::PointUpdate { .. }) => Some("UPDATE"@),
        PhysicalPlan::Document(DocumentOp::BulkUpdate { .. }) => Some("UPDATE"@),
        PhysicalPlan::Document(DocumentOp::UpdateFromJoin { .. }) => Some("UPDATE"@),
        PhysicalPlan::Document(DocumentOp::PointDelete { .. }) => Some("DELETE"@),
        PhysicalPlan::Document(DocumentOp::BulkDelete { .. }) => Some("DELETE"@),
        PhysicalPlan::Document(DocumentOp::Truncate) => Some("TRUNCATE"@),
        PhysicalPlan::Document(DocumentOp::Upsert) => Some("UPSERT"@),
        _ => None,
    }
}

/// Whether the plan is that of a statement that asks for the rows that it changes.
pub open spec fn has_returning(plan: PhysicalPlan) -> bool {
    match plan {
        PhysicalPlan::Document(DocumentOp::PointUpdate { returning }) => returning,
        PhysicalPlan::Document(DocumentOp::BulkUpdate { returning }) => returning,
        PhysicalPlan::Document(DocumentOp::PointDelete { returning }) => returning,
        PhysicalPlan::Document(DocumentOp::BulkDelete { returning }) => returning,
        PhysicalPlan::Document(DocumentOp::UpdateFromJoin { returning, .. }) => returning,
        _ => false,
    }
}

/// What kind of result a plan gives.
pub open spec fn plan_kind(plan: PhysicalPlan) -> KindView {
    let plan = unwrapped(plan);
    if has_returning(plan) {
        KindView::ReturningRows
    } else if dml_command(plan) is Some {
        KindView::DmlResult(dml_command(plan)->0)
    } else if gives_one_document(plan) {
        KindView::SingleDocument
    } else if gives_rows(plan) {
        KindView::MultiRow
    } else if plan is Array && plan->Array_0 is Slice {
        KindView::ArraySlice
    } else {
        KindView::Execution
    }
}

/// What kind of result a plan gives.
pub fn describe_plan(plan: &PhysicalPlan) -> (r: PlanKind)
    ensures
        r@ == plan_kind(*plan),
    decreases *plan,
{
    match plan {
        PhysicalPlan::Document(op) => describe_document(op),
        PhysicalPlan::Vector(op) => match op {
            VectorOp::Search => PlanKind::MultiRow,
            VectorOp::Other => PlanKind::Execution,
        },
        PhysicalPlan::Graph(op) => match op {
            GraphOp::Hop
            | GraphOp::Neighbors
            | GraphOp::Path
            | GraphOp::Subgraph
            | GraphOp::RagFusion
            | GraphOp::Algo
            | GraphOp::Match
            | GraphOp::MatchContinuation
            | GraphOp::MatchVarLenResume
            | GraphOp::BspSuperstep
            | GraphOp::WccSuperstep => PlanKind::MultiRow,
            GraphOp::Other => PlanKind::Execution,
        },
        PhysicalPlan::Kv(op) => match op {
            KvOp::Scan | KvOp::BatchGet => PlanKind::MultiRow,
            KvOp::Get | KvOp::FieldGet => PlanKind::SingleDocument,
            KvOp::Put | KvOp::Insert | KvOp::InsertIfAbsent | KvOp::Delete | KvOp::Other => {
                PlanKind::Execution
            },
        },
        PhysicalPlan::Columnar(op) => match op {
            ColumnarOp::Scan => PlanKind::MultiRow,
            ColumnarOp::Insert => PlanKind::DmlResult("INSERT"),
            ColumnarOp::Other => PlanKind::Execution,
        },
        PhysicalPlan::Timeseries(op) => match op {
            TimeseriesOp::Scan => PlanKind::MultiRow,
            TimeseriesOp::Other => PlanKind::Execution,
        },
        PhysicalPlan::Spatial(op) => match op {
            SpatialOp::Scan => PlanKind::MultiRow,
            SpatialOp::Other => PlanKind::Execution,
        },
        PhysicalPlan::Crdt(op) => match op {
            CrdtOp::Read | CrdtOp::GetPolicy => PlanKind::SingleDocument,
            CrdtOp::Other => PlanKind::Execution,
        },
        PhysicalPlan::Query(op) => match op {
            QueryOp::Aggregate
            | QueryOp::FacetCounts
            | QueryOp::HashJoin
            | QueryOp::RecursiveScan
            | QueryOp::RecursiveValue
            | QueryOp::LateralTopK
            | QueryOp::LateralLoop
            | QueryOp::ProviderScan => PlanKind::MultiRow,
            QueryOp::Exchange(child) => describe_plan(child),
            QueryOp::Other => PlanKind::Execution,
        },
        PhysicalPlan::Text(op) => match op {
            TextOp::Search
            | TextOp::PhraseSearch
            | TextOp::HybridSearch
            | TextOp::HybridSearchTriple
            | TextOp::BM25ScoreScan
            | TextOp::FtsIndexDoc
            | TextOp::FtsDeleteDoc => PlanKind::MultiRow,
            TextOp::SetAnalyzer => PlanKind::Execution,
        },
        PhysicalPlan::Array(op) => match op {
            ArrayOp::Slice => PlanKind::ArraySlice,
            ArrayOp::Project | ArrayOp::Aggregate | ArrayOp::Elementwise => PlanKind::MultiRow,
            ArrayOp::Flush | ArrayOp::Compact => PlanKind::SingleDocument,
            ArrayOp::Other => PlanKind::Execution,
        },
        PhysicalPlan::Meta | PhysicalPlan::ClusterArray => PlanKind::Execution,
    }
}

fn changed_rows(returning: bool, command: &'static str) -> (r: PlanKind)
    ensures
        r@ == (if returning {
            KindView::ReturningRows
        } else {
            KindView::DmlResult(command@)
        }),
{
    if returning {
        PlanKind::ReturningRows
    } else {
        PlanKind::DmlResult(command)
    }
}

fn describe_document(op: &DocumentOp) -> (r: PlanKind)
    ensures
        r@ == plan_kind(PhysicalPlan::Document(*op)),
{
    match op {
        DocumentOp::PointGet => PlanKind::SingleDocument,
        DocumentOp::RangeScan | DocumentOp::Scan | DocumentOp::IndexedFetch => PlanKind::MultiRow,
        DocumentOp::PointPut
        | DocumentOp::PointInsert
        | DocumentOp::BatchInsert
        | DocumentOp::InsertSelect => PlanKind::DmlResult("INSERT"),
        DocumentOp::PointUpdate { returning } => changed_rows(*returning, "UPDATE"),
        DocumentOp::BulkUpdate { returning } => changed_rows(*returning, "UPDATE"),
        DocumentOp::PointDelete { returning } => changed_rows(*returning, "DELETE"),
        DocumentOp::BulkDelete { returning } => changed_rows(*returning, "DELETE"),
        DocumentOp::UpdateFromJoin { returning, resolve_only: _, source_rows: _ } => changed_rows(
            *returning,
            "UPDATE",
        ),
        DocumentOp::Truncate => PlanKind::DmlResult("TRUNCATE"),
        DocumentOp::Upsert => PlanKind::DmlResult("UPSERT"),
        DocumentOp::Merge { resolve_only: _, resolved_inserts: _ } | DocumentOp::Other => {
            PlanKind::Execution
        },
    }
}

/// The type of a column, whatever the protocol.
#[derive(Debug, Clone, Copy, PartialEq, Eq, Structural)]
pub enum DdlColType {
    Text,
    Int8,
    Int4,
    Int2,
    Float8,
    Float4,
    Bool,
    Bytea,
    Json,
    Jsonb,
    Timestamp,
    Timestamptz,
    Varchar,
    Float4Array,
    Float8Array,
}

impl Default for DdlColType {
    fn default() -> (r: Self)
        ensures
            r == DdlColType::Text,
    {
        DdlColType::Text
    }
}

/// Rows in the shape that every protocol starts from: the names and types of the columns, each row
/// as the text of a JSON object, and what the client should be told.
#[derive(Debug, Clone)]
pub struct ShapedRows {
    pub columns: Vec<String>,
    /// One type for each column, `Text` where it is not known.
    pub column_types: Vec<DdlColType>,
    pub rows: Vec<String>,
    pub notice: Option<String>,
}

impl ShapedRows {
    /// The types of `n` columns of which nothing is known.
    pub fn text_types(n: usize) -> (r: Vec<DdlColType>)
        ensures
            r@ == Seq::new(n as nat, |i: int| DdlColType::Text),
    {
        let mut types: Vec<DdlColType> = Vec::new();
        let mut i: usize = 0;
        while i < n
            invariant
                i <= n,
                types@ == Seq::new(i as nat, |k: int| DdlColType::Text),
            decreases n - i,
        {
            types.push(DdlColType::Text);
            i += 1;
            assert(types@ =~= Seq::new(i as nat, |k: int| DdlColType::Text));
        }
        types
    }
}

} // verus!
