use nodedb_control::error::{Error, ErrorKind};
use nodedb_control::pgwire::plan::{
    calvin_tag_for_plan, is_calvin_foldable, payload_to_response, row_or_error, rows_response,
    tag_from_staged, CommandTag, Response, StagedTagKind,
};
use nodedb_control::pgwire::transaction::{handle_begin, handle_rollback};
use nodedb_control::plan::physical::{
    ArrayOp, ColumnarOp, CrdtOp, DocumentOp, GraphOp, KvOp, PhysicalPlan, QueryOp, SpatialOp,
    TextOp, TimeseriesOp, VectorOp,
};
use nodedb_control::plan::types::{describe_plan, DdlColType, PlanKind, ShapedRows};

fn tag(t: CommandTag) -> (String, Option<u32>, Option<usize>) {
    (t.command, t.oid, t.rows)
}

fn counted(command: &str, oid: Option<u32>, rows: usize) -> (String, Option<u32>, Option<usize>) {
    (command.to_string(), oid, Some(rows))
}

fn kind(plan: PhysicalPlan) -> String {
    format!("{:?}", describe_plan(&plan))
}

#[test]
fn plans_are_classified() {
    let d = |op: DocumentOp| kind(PhysicalPlan::Document(op));
    assert_eq!(d(DocumentOp::PointGet), "SingleDocument");
    assert_eq!(d(DocumentOp::Scan), "MultiRow");
    assert_eq!(d(DocumentOp::BatchInsert), "DmlResult(\"INSERT\")");
    assert_eq!(d(DocumentOp::InsertSelect), "DmlResult(\"INSERT\")");
    assert_eq!(d(DocumentOp::PointUpdate { returning: true }), "ReturningRows");
    assert_eq!(d(DocumentOp::BulkUpdate { returning: false }), "DmlResult(\"UPDATE\")");
    assert_eq!(d(DocumentOp::BulkDelete { returning: false }), "DmlResult(\"DELETE\")");
    assert_eq!(d(DocumentOp::PointDelete { returning: true }), "ReturningRows");
    let join = |returning| DocumentOp::UpdateFromJoin {
        returning,
        resolve_only: false,
        source_rows: false,
    };
    assert_eq!(d(join(true)), "ReturningRows");
    assert_eq!(d(join(false)), "DmlResult(\"UPDATE\")");
    assert_eq!(d(DocumentOp::Truncate), "DmlResult(\"TRUNCATE\")");
    assert_eq!(d(DocumentOp::Upsert), "DmlResult(\"UPSERT\")");
    assert_eq!(d(DocumentOp::Merge { resolve_only: false, resolved_inserts: false }), "Execution");
    assert_eq!(kind(PhysicalPlan::Columnar(ColumnarOp::Insert)), "DmlResult(\"INSERT\")");
    assert_eq!(kind(PhysicalPlan::Kv(KvOp::Get)), "SingleDocument");
    assert_eq!(kind(PhysicalPlan::Kv(KvOp::BatchGet)), "MultiRow");
    assert_eq!(kind(PhysicalPlan::Kv(KvOp::Put)), "Execution");
    assert_eq!(kind(PhysicalPlan::Crdt(CrdtOp::GetPolicy)), "SingleDocument");
    assert_eq!(kind(PhysicalPlan::Crdt(CrdtOp::Other)), "Execution");
    assert_eq!(kind(PhysicalPlan::Vector(VectorOp::Search)), "MultiRow");
    assert_eq!(kind(PhysicalPlan::Vector(VectorOp::Other)), "Execution");
    assert_eq!(kind(PhysicalPlan::Graph(GraphOp::WccSuperstep)), "MultiRow");
    assert_eq!(kind(PhysicalPlan::Graph(GraphOp::Other)), "Execution");
    assert_eq!(kind(PhysicalPlan::Timeseries(TimeseriesOp::Scan)), "MultiRow");
    assert_eq!(kind(PhysicalPlan::Spatial(SpatialOp::Other)), "Execution");
    assert_eq!(kind(PhysicalPlan::Text(TextOp::FtsDeleteDoc)), "MultiRow");
    assert_eq!(kind(PhysicalPlan::Text(TextOp::SetAnalyzer)), "Execution");
    assert_eq!(kind(PhysicalPlan::Array(ArrayOp::Slice)), "ArraySlice");
    assert_eq!(kind(PhysicalPlan::Array(ArrayOp::Elementwise)), "MultiRow");
    assert_eq!(kind(PhysicalPlan::Array(ArrayOp::Flush)), "SingleDocument");
    assert_eq!(kind(PhysicalPlan::Array(ArrayOp::Other)), "Execution");
    assert_eq!(kind(PhysicalPlan::Query(QueryOp::ProviderScan)), "MultiRow");
    assert_eq!(kind(PhysicalPlan::Query(QueryOp::Other)), "Execution");
    assert_eq!(kind(PhysicalPlan::Meta), "Execution");
    assert_eq!(kind(PhysicalPlan::ClusterArray), "Execution");
}

#[test]
fn exchanges_are_looked_through() {
    let inner = PhysicalPlan::Document(DocumentOp::PointGet);
    let once = PhysicalPlan::Query(QueryOp::Exchange(Box::new(inner)));
    let twice = PhysicalPlan::Query(QueryOp::Exchange(Box::new(once)));
    assert_eq!(kind(twice), "SingleDocument");
}

#[test]
fn folded_tags_are_those_of_the_plan() {
    let cases = [
        (PhysicalPlan::Document(DocumentOp::PointPut), counted("INSERT", Some(0), 1)),
        (PhysicalPlan::Document(DocumentOp::PointInsert), counted("INSERT", Some(0), 1)),
        (
            PhysicalPlan::Document(DocumentOp::PointUpdate { returning: false }),
            counted("UPDATE", None, 1),
        ),
        (
            PhysicalPlan::Document(DocumentOp::PointDelete { returning: false }),
            counted("DELETE", None, 1),
        ),
        (PhysicalPlan::Kv(KvOp::Put), counted("INSERT", Some(0), 1)),
        (PhysicalPlan::Kv(KvOp::Insert), counted("INSERT", Some(0), 1)),
        (PhysicalPlan::Kv(KvOp::InsertIfAbsent), counted("INSERT", Some(0), 1)),
        (PhysicalPlan::Kv(KvOp::Delete), counted("DELETE", None, 1)),
    ];
    for (plan, expected) in cases {
        assert!(is_calvin_foldable(&plan));
        assert_eq!(tag(calvin_tag_for_plan(&plan)), expected);
        if matches!(plan, PhysicalPlan::Document(_)) {
            let response = payload_to_response(&[], None, "", describe_plan(&plan)).response;
            match response {
                Response::Execution(t) => assert_eq!(tag(t), expected),
                _ => panic!("expected a tag"),
            }
        }
    }
    for plan in [
        PhysicalPlan::Document(DocumentOp::PointUpdate { returning: true }),
        PhysicalPlan::Document(DocumentOp::PointDelete { returning: true }),
        PhysicalPlan::Document(DocumentOp::BatchInsert),
        PhysicalPlan::Document(DocumentOp::InsertSelect),
        PhysicalPlan::Columnar(ColumnarOp::Insert),
        PhysicalPlan::Kv(KvOp::Get),
        PhysicalPlan::Query(QueryOp::Aggregate),
        PhysicalPlan::Meta,
    ] {
        assert!(!is_calvin_foldable(&plan));
    }
}

#[test]
fn staged_writes_have_their_tags() {
    let t = |kind| tag(tag_from_staged(kind, 3));
    assert_eq!(t(StagedTagKind::Insert), counted("INSERT", Some(0), 3));
    assert_eq!(t(StagedTagKind::Update), counted("UPDATE", None, 3));
    assert_eq!(t(StagedTagKind::Delete), counted("DELETE", None, 3));
    assert_eq!(t(StagedTagKind::KvUpsert { updated: true }), counted("UPDATE", None, 3));
    assert_eq!(t(StagedTagKind::KvUpsert { updated: false }), counted("INSERT", Some(0), 3));
    assert_eq!(t(StagedTagKind::DocUpsert), counted("UPSERT", None, 3));
    assert_eq!(t(StagedTagKind::Merge), counted("MERGE", None, 3));
    assert_eq!(t(StagedTagKind::UpdateFromJoin), counted("UPDATE", None, 3));
    assert_eq!(t(StagedTagKind::RawPayload), counted("SELECT", None, 3));
}

fn execution(r: Response) -> (String, Option<u32>, Option<usize>) {
    match r {
        Response::Execution(t) => tag(t),
        _ => panic!("expected a tag"),
    }
}

fn texts(r: Response) -> Vec<String> {
    match r {
        Response::Rows(rows) => rows
            .into_iter()
            .map(|row| {
                let len = u32::from_be_bytes([row[0], row[1], row[2], row[3]]) as usize;
                assert_eq!(row.len(), len + 4);
                String::from_utf8(row[4..].to_vec()).expect("text")
            })
            .collect(),
        _ => panic!("expected rows"),
    }
}

#[test]
fn command_payloads_become_tags() {
    let r = payload_to_response(&[1], None, "", PlanKind::Execution);
    assert!(r.notice.is_none());
    assert_eq!(execution(r.response), ("OK".to_string(), None, None));
    let dml = |payload: &[u8], n, command| {
        execution(payload_to_response(payload, n, "", PlanKind::DmlResult(command)).response)
    };
    assert_eq!(dml(&[], Some(9), "UPDATE"), counted("UPDATE", None, 1));
    assert_eq!(dml(&[1], Some(9), "UPDATE"), counted("UPDATE", None, 9));
    assert_eq!(dml(&[1], None, "DELETE"), counted("DELETE", None, 1));
    assert_eq!(dml(&[1], Some(0), "INSERT"), counted("INSERT", Some(0), 0));
}

#[test]
fn json_arrays_become_rows() {
    let rows = |text: &str| texts(payload_to_response(&[1], None, text, PlanKind::MultiRow).response);
    assert_eq!(
        rows(" [ {\"b\": 1, \"a\": [2]}, \"x\\u00e9\", null, 1.50 ]"),
        vec!["{\"a\":[2],\"b\":1}", "\"xé\"", "null", "1.5"]
    );
    assert_eq!(rows("[]"), Vec::<String>::new());
    assert_eq!(rows("{\"a\": 1}"), vec!["{\"a\": 1}"]);
    assert_eq!(rows("not json"), vec!["not json"]);
    assert_eq!(rows("[1] 2"), vec!["[1] 2"]);
    assert_eq!(rows(""), vec![""]);
    let none = payload_to_response(&[], None, "[1]", PlanKind::MultiRow).response;
    assert!(texts(none).is_empty());
}

#[test]
fn rows_follow_from_the_items() {
    assert_eq!(texts(rows_response("all", None)), vec!["all"]);
    let items = vec!["a".to_string(), "öl".to_string()];
    assert_eq!(texts(rows_response("all", Some(items))), vec!["a", "öl"]);
    assert_eq!(execution(row_or_error(Err("no".into()))), ("ERROR".to_string(), None, None));
    match row_or_error(Ok(vec![1, 2])) {
        Response::Rows(rows) => assert_eq!(rows, vec![vec![1, 2]]),
        _ => panic!("expected a row"),
    }
}

#[test]
fn transaction_blocks_are_reported() {
    match handle_begin(Ok(())).expect("begun").pop() {
        Some(Response::TransactionStart(t)) => assert_eq!(tag(t), ("BEGIN".to_string(), None, None)),
        _ => panic!("expected the start of a transaction"),
    }
    let bad = Error {
        kind: ErrorKind::BadRequest { detail: "already in a transaction".into() },
        text: "bad request: already in a transaction".into(),
    };
    let e = handle_begin(Err(bad)).err().expect("an error");
    assert_eq!((e.severity.as_str(), e.code.as_str()), ("ERROR", "25P02"));
    assert_eq!(e.message, "already in a transaction");
    let other = Error { kind: ErrorKind::Other, text: "broken".into() };
    assert_eq!(handle_begin(Err(other)).err().expect("an error").message, "broken");
    match handle_rollback().pop() {
        Some(Response::TransactionEnd(t)) => assert_eq!(tag(t), ("ROLLBACK".to_string(), None, None)),
        _ => panic!("expected the end of a transaction"),
    }
}

#[test]
fn unknown_columns_are_text() {
    assert_eq!(ShapedRows::text_types(3), vec![DdlColType::Text; 3]);
    assert!(ShapedRows::text_types(0).is_empty());
    assert_eq!(DdlColType::default(), DdlColType::Text);
}
