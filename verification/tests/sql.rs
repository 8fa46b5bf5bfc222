use nodedb_control::sql::double::to_unsigned;
use nodedb_control::sql::error::{SqlError, VectorFault};
use nodedb_control::sql::expr::{
    convert_value_rows, expr_to_sql_value, extract_point_keys,
    extract_table_name_from_table_with_joins, fold_constant_value, BinaryOperator, CollectionInfo,
    Expr, ExprKind, Folded, TableTarget,
};
use nodedb_control::sql::kv::{
    build_kv_insert_plan, build_kv_insert_plan_checked, KvInsert, KvInsertIntent,
};
use nodedb_control::sql::plan::SqlPlan;
use nodedb_control::sql::qualified::{plan_delete, plan_update};
use nodedb_control::sql::value::SqlValue;
use nodedb_control::sql::vector::{
    build_vector_primary_insert_plan, check_element, VectorPrimaryConfig, VectorPrimaryInsert,
};
use rust_decimal::Decimal;
use sqlparser::ast;

// Statements are parsed here and handed on in the library's own form.

fn ident(i: &ast::Ident) -> String {
    match i.quote_style {
        Some(_) => i.value.clone(),
        None => i.value.to_lowercase(),
    }
}

fn object_name(name: &ast::ObjectName) -> String {
    let parts: Vec<String> = name
        .0
        .iter()
        .map(|part| match part {
            ast::ObjectNamePart::Identifier(i) => ident(i),
            other => panic!("unexpected name {other}"),
        })
        .collect();
    parts.join(".")
}

fn convert(e: &ast::Expr) -> Expr {
    let text = e.to_string();
    let (kind, folded) = match e {
        ast::Expr::Value(v) => {
            let value = match &v.value {
                ast::Value::Number(n, _) => SqlValue::Int(n.parse().expect("an integer")),
                ast::Value::SingleQuotedString(s) => SqlValue::String(s.clone()),
                other => panic!("unexpected literal {other}"),
            };
            (ExprKind::Value(Ok(value)), Folded::NotConstant)
        }
        ast::Expr::Nested(inner) => (ExprKind::Nested(Box::new(convert(inner))), Folded::NotConstant),
        ast::Expr::Identifier(i) => (ExprKind::Identifier(ident(i)), Folded::NotConstant),
        ast::Expr::CompoundIdentifier(parts) => (
            ExprKind::CompoundIdentifier(parts.iter().map(ident).collect()),
            Folded::NotConstant,
        ),
        ast::Expr::BinaryOp { left, op, right } => (
            ExprKind::BinaryOp {
                left: Box::new(convert(left)),
                op: match op {
                    ast::BinaryOperator::Eq => BinaryOperator::Eq,
                    ast::BinaryOperator::Or => BinaryOperator::Or,
                    other => BinaryOperator::Other(other.to_string()),
                },
                right: Box::new(convert(right)),
            },
            Folded::NotConstant,
        ),
        ast::Expr::InList { expr, list, negated } => (
            ExprKind::InList {
                expr: Box::new(convert(expr)),
                list: list.iter().map(convert).collect(),
                negated: *negated,
            },
            Folded::NotConstant,
        ),
        ast::Expr::Array(a) => (
            ExprKind::Array(a.elem.iter().map(convert).collect()),
            Folded::NotConstant,
        ),
        _ => (
            ExprKind::Other { form: text.clone(), operands: Vec::new() },
            Folded::NotConstant,
        ),
    };
    Expr { kind, folded, text }
}

fn catalog(name: &str) -> CollectionInfo {
    assert_eq!(name, "users");
    CollectionInfo { name: "users".into(), primary_key: Some("id".into()) }
}

fn target(table: &ast::TableWithJoins) -> (CollectionInfo, Option<String>) {
    match &table.relation {
        ast::TableFactor::Table { name, alias, .. } => {
            let name = extract_table_name_from_table_with_joins(TableTarget::Table(Ok(object_name(name))))
                .expect("a table");
            (catalog(&name), alias.as_ref().map(|a| ident(&a.name)))
        }
        other => panic!("unexpected table {other}"),
    }
}

/// The plan of a statement, in the form in which plans are compared.
fn plan_sql(sql: &str) -> Result<String, SqlError> {
    let dialect = sqlparser::dialect::PostgreSqlDialect {};
    let statements = sqlparser::parser::Parser::parse_sql(&dialect, sql).expect("valid SQL");
    match &statements[0] {
        ast::Statement::Update(update) => {
            let (info, alias) = target(&update.table);
            let assignments: Vec<(String, Expr)> = update
                .assignments
                .iter()
                .map(|a| match &a.target {
                    ast::AssignmentTarget::ColumnName(name) => (object_name(name), convert(&a.value)),
                    other => panic!("unexpected target {other}"),
                })
                .collect();
            let selection = update.selection.as_ref().map(convert);
            plan_update(&info, alias.as_deref(), &assignments, selection.as_ref())
                .map(|plan| format!("{plan:?}"))
        }
        ast::Statement::Delete(delete) => {
            let table = match &delete.from {
                ast::FromTable::WithFromKeyword(tables) => &tables[0],
                ast::FromTable::WithoutKeyword(tables) => &tables[0],
            };
            let (info, alias) = target(table);
            let selection = delete.selection.as_ref().map(convert);
            plan_delete(&info, alias.as_deref(), selection.as_ref()).map(|plan| format!("{plan:?}"))
        }
        other => panic!("unexpected statement {other}"),
    }
}

/// The qualified form must plan identically to the bare form.
fn assert_plans_match(qualified: &str, bare: &str) {
    let q = plan_sql(qualified)
        .unwrap_or_else(|e| panic!("qualified statement failed to plan: {qualified}: {e:?}"));
    let b = plan_sql(bare).unwrap();
    assert_eq!(
        q, b,
        "qualified plan differs from bare plan\n  qualified: {qualified}\n  bare: {bare}"
    );
}

#[test]
fn update_where_table_qualified() {
    assert_plans_match(
        r#"UPDATE "users" SET "karma" = 7 WHERE ("users"."id" = 2)"#,
        "UPDATE users SET karma = 7 WHERE id = 2",
    );
}

#[test]
fn update_where_alias_qualified() {
    assert_plans_match(
        "UPDATE users AS u SET karma = 7 WHERE u.id = 2",
        "UPDATE users SET karma = 7 WHERE id = 2",
    );
}

#[test]
fn delete_where_table_qualified() {
    assert_plans_match(
        r#"DELETE FROM "users" WHERE ("users"."karma" < 10)"#,
        "DELETE FROM users WHERE karma < 10",
    );
}

#[test]
fn delete_where_alias_qualified() {
    assert_plans_match(
        "DELETE FROM users AS u WHERE u.id = 1",
        "DELETE FROM users WHERE id = 1",
    );
}

#[test]
fn update_where_foreign_qualifier_errors() {
    let result = plan_sql("UPDATE users SET karma = 7 WHERE orders.id = 2");
    assert!(
        matches!(result, Err(SqlError::UnknownTable { .. }) | Err(SqlError::Unsupported { .. })),
        "foreign qualifier must error, got {result:?}"
    );
}

#[test]
fn delete_where_foreign_qualifier_errors() {
    let result = plan_sql("DELETE FROM users WHERE orders.id = 2");
    assert!(
        matches!(result, Err(SqlError::UnknownTable { .. }) | Err(SqlError::Unsupported { .. })),
        "foreign qualifier must error, got {result:?}"
    );
}

#[test]
fn a_foreign_qualifier_errors_wherever_it_stands() {
    for condition in [
        "id = 1 OR (name = 'x' AND orders.id = 2)",
        "orders.id IN (1, 2)",
        "id IN (1, orders.n)",
        "(((orders.id))) = 2",
    ] {
        match plan_sql(&format!("DELETE FROM users AS u WHERE {condition}")) {
            Err(SqlError::UnknownTable { name }) => assert_eq!(name, "orders"),
            other => panic!("expected an unknown table, got {other:?}"),
        }
    }
    assert!(plan_sql("DELETE FROM users").is_ok());
    assert!(matches!(
        plan_sql("DELETE FROM users WHERE db.users.id = 1"),
        Err(SqlError::Unsupported { .. })
    ));
}

fn expr_of(condition: &str) -> Expr {
    let sql = format!("SELECT 1 WHERE {condition}");
    let dialect = sqlparser::dialect::PostgreSqlDialect {};
    let statements = sqlparser::parser::Parser::parse_sql(&dialect, &sql).expect("valid SQL");
    match &statements[0] {
        ast::Statement::Query(q) => match q.body.as_ref() {
            ast::SetExpr::Select(s) => convert(s.selection.as_ref().expect("a condition")),
            other => panic!("unexpected body {other}"),
        },
        other => panic!("unexpected statement {other}"),
    }
}

fn keys(condition: &str) -> String {
    format!("{:?}", extract_point_keys(Some(&expr_of(condition)), &catalog("users")))
}

#[test]
fn point_keys_are_picked_out_of_conditions() {
    assert_eq!(keys("id = 1"), "[Int(1)]");
    assert_eq!(keys("1 = id"), "[Int(1)]");
    assert_eq!(keys("(u.id = 'x')"), "[String(\"x\")]");
    assert_eq!(keys("id = 1 OR id = 2 OR (id = 3)"), "[Int(1), Int(2), Int(3)]");
    assert_eq!(keys("id IN (4, name, 5)"), "[Int(4), Int(5)]");
    assert_eq!(keys("id NOT IN (4, 5)"), "[]");
    assert_eq!(keys("id = 1 AND x = 2"), "[]");
    assert_eq!(keys("a.b.id = 1"), "[]");
    assert_eq!(keys("name = 1"), "[]");
    assert_eq!(keys("id = id"), "[]");
    let none = CollectionInfo { name: "users".into(), primary_key: None };
    assert!(extract_point_keys(Some(&expr_of("id = 1")), &none).is_empty());
    assert!(extract_point_keys(None, &catalog("users")).is_empty());
}

fn literal(v: SqlValue) -> Expr {
    Expr { kind: ExprKind::Value(Ok(v)), folded: Folded::NotConstant, text: String::new() }
}

fn opaque(text: &str) -> Expr {
    Expr {
        kind: ExprKind::Other { form: text.into(), operands: Vec::new() },
        folded: Folded::NotConstant,
        text: text.into(),
    }
}

#[test]
fn values_come_from_literals_arrays_shapes_and_the_folder() {
    let array = Expr {
        kind: ExprKind::Array(vec![
            literal(SqlValue::Int(1)),
            literal(SqlValue::Bytes(vec![1, 2])),
            literal(SqlValue::Null),
            literal(SqlValue::Array(vec![SqlValue::Bool(true)])),
        ]),
        folded: Folded::NotConstant,
        text: String::new(),
    };
    assert_eq!(
        format!("{:?}", expr_to_sql_value(&array).unwrap()),
        "Array([Int(1), Bytes([1, 2]), Null, Array([Bool(true)])])"
    );
    let shape = Expr {
        kind: ExprKind::Function { shape: Some(Ok(SqlValue::String("{}".into()))) },
        folded: Folded::Failed(SqlError::Unresolved { reason: "unused".into() }),
        text: "ST_Point(1, 2)".into(),
    };
    assert_eq!(format!("{:?}", expr_to_sql_value(&shape).unwrap()), "String(\"{}\")");
    let folded = Expr {
        kind: ExprKind::Function { shape: None },
        folded: Folded::Value(SqlValue::Float(0)),
        text: "now()".into(),
    };
    assert_eq!(format!("{:?}", expr_to_sql_value(&folded).unwrap()), "Float(0)");
    match expr_to_sql_value(&opaque("a + b")) {
        Err(SqlError::Unsupported { detail }) => assert_eq!(detail, "value expression: a + b"),
        other => panic!("expected an unsupported expression, got {other:?}"),
    }
    let failed = Expr {
        folded: Folded::Failed(SqlError::Unresolved { reason: "no such function".into() }),
        ..opaque("f()")
    };
    assert!(matches!(
        fold_constant_value(&failed),
        Err(SqlError::Unresolved { reason }) if reason == "no such function"
    ));
}

#[test]
fn rows_are_named_and_the_first_error_wins() {
    let columns = vec!["a".to_string()];
    let rows = vec![
        vec![literal(SqlValue::Int(1)), literal(SqlValue::Int(2)), literal(SqlValue::Null)],
        vec![],
    ];
    assert_eq!(
        format!("{:?}", convert_value_rows(&columns, &rows).unwrap()),
        "[[(\"a\", Int(1)), (\"col1\", Int(2)), (\"col2\", Null)], []]"
    );
    let rows = vec![vec![literal(SqlValue::Int(1)), opaque("x")], vec![opaque("y")]];
    match convert_value_rows(&columns, &rows) {
        Err(SqlError::Unsupported { detail }) => assert_eq!(detail, "value expression: x"),
        other => panic!("expected an unsupported expression, got {other:?}"),
    }
}

#[test]
fn only_tables_can_be_changed() {
    match extract_table_name_from_table_with_joins(TableTarget::Other) {
        Err(SqlError::Unsupported { detail }) => assert_eq!(detail, "non-table target in DML"),
        other => panic!("expected an unsupported target, got {other:?}"),
    }
    assert_eq!(
        extract_table_name_from_table_with_joins(TableTarget::Table(Ok("t".into()))).unwrap(),
        "t"
    );
}

fn kv(columns: &[&str], rows: Vec<Vec<Expr>>, pk: Option<&str>) -> Result<KvInsert, SqlError> {
    let columns: Vec<String> = columns.iter().map(|c| c.to_string()).collect();
    let plans = build_kv_insert_plan("t".into(), &columns, &rows, KvInsertIntent::Put, Vec::new(), pk)?;
    assert_eq!(plans.len(), 1);
    match plans.into_iter().next() {
        Some(SqlPlan::KvInsert(plan)) => Ok(plan),
        _ => panic!("expected an insert"),
    }
}

fn whole(n: i64) -> Expr {
    literal(SqlValue::Int(n))
}

fn double(x: f64) -> Expr {
    literal(SqlValue::Float(x.to_bits()))
}

#[test]
fn raw_keys_are_hidden_and_named_keys_are_stored() {
    let plan = kv(&["key", "v", "ttl"], vec![vec![whole(1), whole(2), whole(30)]], None).unwrap();
    assert_eq!(
        format!("{:?}", plan.entries),
        "[KvEntry { key: Int(1), columns: [(\"v\", Int(2))] }]"
    );
    assert_eq!(plan.ttl_secs, 30);
    assert_eq!(plan.collection, "t");
    assert_eq!(plan.intent, KvInsertIntent::Put);

    let plan = kv(&["k", "v"], vec![vec![whole(1), whole(2)]], Some("k")).unwrap();
    assert_eq!(
        format!("{:?}", plan.entries),
        "[KvEntry { key: Int(1), columns: [(\"k\", Int(1)), (\"v\", Int(2))] }]"
    );
    let plan = kv(&["v"], vec![vec![whole(2)]], None).unwrap();
    assert_eq!(
        format!("{:?}", plan.entries),
        "[KvEntry { key: String(\"\"), columns: [(\"v\", Int(2))] }]"
    );
    let plan = kv(&["key", "key"], vec![vec![whole(1), whole(2)]], Some("key")).unwrap();
    assert_eq!(
        format!("{:?}", plan.entries),
        "[KvEntry { key: Int(1), columns: [(\"key\", Int(2))] }]"
    );
}

#[test]
fn the_last_time_to_live_counts() {
    let ttl = |rows: Vec<Expr>| {
        let rows = rows.into_iter().map(|ttl| vec![whole(1), ttl]).collect();
        kv(&["key", "ttl"], rows, None).unwrap().ttl_secs
    };
    assert_eq!(ttl(vec![whole(5), literal(SqlValue::Null)]), 5);
    assert_eq!(ttl(vec![whole(5), whole(7)]), 7);
    assert_eq!(ttl(vec![whole(5), whole(-7)]), 0);
    assert_eq!(ttl(vec![opaque("x")]), 0);
    assert_eq!(ttl(vec![double(2.9)]), 2);
}

#[test]
fn errors_of_key_value_rows_are_passed_on() {
    match kv(&["key", "v"], vec![vec![opaque("k"), opaque("v")]], None) {
        Err(SqlError::Unsupported { detail }) => assert_eq!(detail, "value expression: k"),
        other => panic!("expected an unsupported key, got {other:?}"),
    }
    match kv(&["key", "v"], vec![vec![whole(1), opaque("v")]], None) {
        Err(SqlError::Unsupported { detail }) => assert_eq!(detail, "value expression: v"),
        other => panic!("expected an unsupported value, got {other:?}"),
    }
    // A key that fails is reported before anything is found missing.
    assert!(kv(&["key", "v"], vec![vec![opaque("k")]], None).is_err());
}

#[test]
fn short_rows_are_told() {
    let columns = vec!["key".to_string(), "v".to_string()];
    let checked = |rows: Vec<Vec<Expr>>| {
        let intent = KvInsertIntent::InsertIfAbsent;
        build_kv_insert_plan_checked("t".into(), &columns, &rows, intent, Vec::new(), None)
    };
    assert!(checked(vec![vec![whole(1), whole(2)], vec![whole(3)]]).is_none());
    assert!(matches!(checked(vec![vec![opaque("k")]]), Some(Err(_))));
    assert!(matches!(checked(vec![vec![whole(1), whole(2)]]), Some(Ok(_))));
}

#[test]
fn doubles_become_whole_seconds() {
    let huge = u64::MAX as f64;
    for x in [
        0.0, -0.0, 0.5, 0.999_999, 1.0, 1.5, 2.9, 3.0, 1e9, 4_503_599_627_370_495.5,
        4_503_599_627_370_496.0, 9_007_199_254_740_993.0, 1e18, 9.3e18, 1.8e19, huge, huge * 2.0,
        1e300, -1.0, -1e300, f64::MIN_POSITIVE, f64::MIN_POSITIVE / 4.0, f64::INFINITY,
        f64::NEG_INFINITY, f64::NAN, -f64::NAN,
    ] {
        assert_eq!(to_unsigned(x.to_bits()), x.max(0.0) as u64, "for {x}");
    }
}

fn config() -> VectorPrimaryConfig {
    VectorPrimaryConfig {
        vector_field: "embedding".into(),
        quantization: "sq8".into(),
        storage_dtype: "f32".into(),
        payload_indexes: vec!["city".into()],
    }
}

fn vector_plan(rows: Vec<Vec<(String, SqlValue)>>) -> Result<VectorPrimaryInsert, SqlError> {
    let plans = build_vector_primary_insert_plan("docs", &config(), rows)?;
    assert_eq!(plans.len(), 1);
    match plans.into_iter().next() {
        Some(SqlPlan::VectorPrimaryInsert(plan)) => Ok(plan),
        _ => panic!("expected an insert"),
    }
}

#[test]
fn vectors_are_taken_out_of_rows() {
    let vector = SqlValue::Array(vec![
        SqlValue::Int(1),
        SqlValue::Float(0.5f64.to_bits()),
        SqlValue::Decimal(Decimal::new(25, 1)),
    ]);
    let plan = vector_plan(vec![vec![
        ("city".into(), SqlValue::String("Oslo".into())),
        ("embedding".into(), vector),
        ("city".into(), SqlValue::String("Rome".into())),
    ]])
    .unwrap();
    assert_eq!(plan.collection, "docs");
    assert_eq!(plan.field, "embedding");
    assert_eq!(plan.quantization, "sq8");
    assert_eq!(plan.storage_dtype, "f32");
    assert_eq!(plan.payload_indexes, vec!["city"]);
    assert_eq!(plan.rows.len(), 1);
    let row = &plan.rows[0];
    assert_eq!(row.surrogate, 0);
    assert_eq!(
        format!("{:?}", row.vector),
        format!("[Int(1), Float({}), Decimal(2.5)]", 0.5f64.to_bits())
    );
    assert_eq!(format!("{:?}", row.payload_fields.get("city")), "Some(String(\"Rome\"))");
    assert!(row.payload_fields.get("embedding").is_none());
    assert!(vector_plan(Vec::new()).unwrap().rows.is_empty());
}

#[test]
fn faulty_vectors_are_told_apart() {
    match vector_plan(vec![vec![("city".into(), SqlValue::Null)]]) {
        Err(SqlError::Vector(VectorFault::Missing { field })) => assert_eq!(field, "embedding"),
        _ => panic!("expected a missing vector"),
    }
    match vector_plan(vec![vec![("embedding".into(), SqlValue::Int(3))]]) {
        Err(SqlError::Vector(VectorFault::NotAnArray { field, value })) => {
            assert_eq!(field, "embedding");
            assert_eq!(format!("{value:?}"), "Int(3)");
        }
        _ => panic!("expected no array"),
    }
    let mixed = SqlValue::Array(vec![SqlValue::Int(1), SqlValue::Bool(true), SqlValue::Null]);
    match vector_plan(vec![vec![("embedding".into(), mixed)]]) {
        Err(SqlError::Vector(VectorFault::NotANumber(value))) => {
            assert_eq!(format!("{value:?}"), "Bool(true)");
        }
        _ => panic!("expected no number"),
    }
    let big = SqlValue::Decimal(Decimal::MAX);
    assert!(check_element(&big, true).is_ok());
    match check_element(&big, false) {
        Err(VectorFault::DecimalOutOfRange(d)) => assert_eq!(d, Decimal::MAX),
        other => panic!("expected a decimal out of range, got {other:?}"),
    }
    let plan = vector_plan(vec![vec![("embedding".into(), SqlValue::Array(vec![big]))]]);
    assert_eq!(plan.unwrap().rows[0].vector.len(), 1);
}
