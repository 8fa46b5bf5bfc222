//! What the kinds of plans promise.

use vstd::prelude::*;

use super::physical::{
    ArrayOp, ColumnarOp, CrdtOp, DocumentOp, KvOp, PhysicalPlan, QueryOp, SpatialOp, TextOp,
    TimeseriesOp, VectorOp, GraphOp,
};
use super::types;
use super::types::{KindView, PlanKind};

verus! {

/// A kind of result is told apart by its kind and by the command that it names.
pub proof fn law_a_kind_is_what_it_names(kind: PlanKind)
    ensures
        match kind {
            PlanKind::SingleDocument => kind@ == KindView::SingleDocument,
            PlanKind::MultiRow => kind@ == KindView::MultiRow,
            PlanKind::ArraySlice => kind@ == KindView::ArraySlice,
            PlanKind::Execution => kind@ == KindView::Execution,
            PlanKind::DmlResult(command) => kind@ == KindView::DmlResult(command@),
            PlanKind::ReturningRows => kind@ == KindView::ReturningRows,
        },
{
}

/// A statement that changes documents gives the rows that it changed where it asks for them, and
/// otherwise the number of them under the name of its command.
pub proof fn law_changes_are_counted_or_returned(returning: bool, resolve_only: bool, source_rows: bool)
    ensures
        forall|op: DocumentOp|
            op == (DocumentOp::PointUpdate { returning }) || op == (DocumentOp::BulkUpdate {
                returning,
            }) || op == (DocumentOp::UpdateFromJoin { returning, resolve_only, source_rows })
                ==> #[trigger] types::plan_kind(PhysicalPlan::Document(op)) == (if returning {
                KindView::ReturningRows
            } else {
                KindView::DmlResult("UPDATE"@)
            }),
        forall|op: DocumentOp|
            op == (DocumentOp::PointDelete { returning }) || op == (DocumentOp::BulkDelete {
                returning,
            }) ==> #[trigger] types::plan_kind(PhysicalPlan::Document(op)) == (if returning {
                KindView::ReturningRows
            } else {
                KindView::DmlResult("DELETE"@)
            }),
        forall|op: DocumentOp|
            op is PointPut || op is PointInsert || op is BatchInsert || op is InsertSelect
                ==> #[trigger] types::plan_kind(PhysicalPlan::Document(op)) == KindView::DmlResult(
                "INSERT"@,
            ),
        types::plan_kind(PhysicalPlan::Columnar(ColumnarOp::Insert)) == KindView::DmlResult(
            "INSERT"@,
        ),
        types::plan_kind(PhysicalPlan::Document(DocumentOp::Truncate)) == KindView::DmlResult(
            "TRUNCATE"@,
        ),
        types::plan_kind(PhysicalPlan::Document(DocumentOp::Upsert)) == KindView::DmlResult(
            "UPSERT"@,
        ),
{
}

/// Lookups and the maintenance of arrays give one document, a slice of an array its cells, and scans,
/// searches, joins and aggregates rows. Nothing else of what changes no documents gives anything but
/// that it was done.
pub proof fn law_what_reads_give(plan: PhysicalPlan)
    ensures
        match plan {
            PhysicalPlan::Document(op) => {
                &&& op is PointGet ==> types::plan_kind(plan) == KindView::SingleDocument
                &&& op is RangeScan || op is Scan || op is IndexedFetch ==> types::plan_kind(plan)
                    == KindView::MultiRow
                &&& op is Merge || op is Other ==> types::plan_kind(plan) == KindView::Execution
            },
            PhysicalPlan::Vector(op) => types::plan_kind(plan) == (match op {
                VectorOp::Search => KindView::MultiRow,
                VectorOp::Other => KindView::Execution,
            }),
            PhysicalPlan::Graph(op) => types::plan_kind(plan) == (match op {
                GraphOp::Other => KindView::Execution,
                _ => KindView::MultiRow,
            }),
            PhysicalPlan::Kv(op) => types::plan_kind(plan) == (match op {
                KvOp::Scan => KindView::MultiRow,
                KvOp::BatchGet => KindView::MultiRow,
                KvOp::Get => KindView::SingleDocument,
                KvOp::FieldGet => KindView::SingleDocument,
                _ => KindView::Execution,
            }),
            PhysicalPlan::Columnar(op) => {
                &&& op is Scan ==> types::plan_kind(plan) == KindView::MultiRow
                &&& op is Other ==> types::plan_kind(plan) == KindView::Execution
            },
            PhysicalPlan::Timeseries(op) => types::plan_kind(plan) == (match op {
                TimeseriesOp::Scan => KindView::MultiRow,
                TimeseriesOp::Other => KindView::Execution,
            }),
            PhysicalPlan::Spatial(op) => types::plan_kind(plan) == (match op {
                SpatialOp::Scan => KindView::MultiRow,
                SpatialOp::Other => KindView::Execution,
            }),
            PhysicalPlan::Crdt(op) => types::plan_kind(plan) == (match op {
                CrdtOp::Read => KindView::SingleDocument,
                CrdtOp::GetPolicy => KindView::SingleDocument,
                CrdtOp::Other => KindView::Execution,
            }),
            PhysicalPlan::Query(op) => match op {
                QueryOp::Exchange(child) => types::plan_kind(plan) == types::plan_kind(*child),
                QueryOp::Other => types::plan_kind(plan) == KindView::Execution,
                _ => types::plan_kind(plan) == KindView::MultiRow,
            },
            PhysicalPlan::Text(op) => types::plan_kind(plan) == (match op {
                TextOp::SetAnalyzer => KindView::Execution,
                _ => KindView::MultiRow,
            }),
            PhysicalPlan::Array(op) => types::plan_kind(plan) == (match op {
                ArrayOp::Slice => KindView::ArraySlice,
                ArrayOp::Project => KindView::MultiRow,
                ArrayOp::Aggregate => KindView::MultiRow,
                ArrayOp::Elementwise => KindView::MultiRow,
                ArrayOp::Flush => KindView::SingleDocument,
                ArrayOp::Compact => KindView::SingleDocument,
                ArrayOp::Other => KindView::Execution,
            }),
            PhysicalPlan::Meta => types::plan_kind(plan) == KindView::Execution,
            PhysicalPlan::ClusterArray => types::plan_kind(plan) == KindView::Execution,
        },
{
    match plan {
        PhysicalPlan::Query(QueryOp::Exchange(child)) => {
            assert(types::unwrapped(plan) == types::unwrapped(*child));
        },
        _ => {},
    }
}

} // verus!
