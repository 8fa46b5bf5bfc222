//! What planning promises.

use vstd::prelude::*;

use super::expr;
use super::expr::{BinaryOperator, Cell, Expr, ExprKind, Valued};
use super::kv;
use super::kv::Layout;
use super::qualified;
use super::qualified::TableNames;
use super::value::SqlValue;
use super::vector;

verus! {

/// The name of the statement's own table, or its alias, before a column makes no difference:
/// neither to what the column stands for nor to whether it is the primary key.
pub proof fn law_own_qualifiers_are_noise(q: Expr, b: Expr, t: TableNames, pk: Seq<char>)
    requires
        q.kind matches ExprKind::CompoundIdentifier(parts) && parts@.len() == 2 && t.has(parts@[0]@)
            && b.kind == ExprKind::Identifier(parts@[1]),
    ensures
        qualified::resolved(q, t) == qualified::resolved(b, t),
        expr::names_column(q, pk) == expr::names_column(b, pk),
{
}

/// Whether two expressions stand for the same value, or neither for any.
pub open spec fn same_value(q: Expr, b: Expr) -> bool {
    match (expr::value_of(q), expr::value_of(b)) {
        (Valued::Value(v), Valued::Value(w)) => v == w,
        (Valued::Error(_), Valued::Error(_)) => true,
        _ => false,
    }
}

/// Whether two columns are the same: they have the same name, behind the name of the statement's
/// own table or not; or both are behind the same other name.
pub open spec fn same_column(q: Expr, tq: TableNames, b: Expr, tb: TableNames) -> bool {
    match (q.kind, b.kind) {
        (ExprKind::Identifier(n), ExprKind::Identifier(m)) => n@ == m@,
        (ExprKind::CompoundIdentifier(parts), ExprKind::Identifier(m)) => parts@.len() == 2
            && tq.has(parts@[0]@) && parts@[1]@ == m@,
        (ExprKind::CompoundIdentifier(parts), ExprKind::CompoundIdentifier(others)) => {
            &&& parts@.len() == others@.len()
            &&& if parts@.len() == 2 {
                &&& parts@[0]@ == others@[0]@
                &&& parts@[1]@ == others@[1]@
                &&& tq.has(parts@[0]@) == tb.has(parts@[0]@)
            } else {
                q.text@ == b.text@
            }
        },
        _ => false,
    }
}

/// Whether `b`, in a statement on `tb`, is `q`, in a statement on `tq`, with the name of the
/// statement's own table left out before some columns.
pub open spec fn bare_form(q: Expr, tq: TableNames, b: Expr, tb: TableNames) -> bool
    decreases q, 0nat,
{
    &&& same_value(q, b)
    &&& match (q.kind, b.kind) {
        (ExprKind::Nested(x), ExprKind::Nested(y)) => bare_form(*x, tq, *y, tb),
        (
            ExprKind::BinaryOp { left, op, right },
            ExprKind::BinaryOp { left: left_b, op: op_b, right: right_b },
        ) => op@ == op_b@ && bare_form(*left, tq, *left_b, tb) && bare_form(
            *right,
            tq,
            *right_b,
            tb,
        ),
        (
            ExprKind::InList { expr, list, negated },
            ExprKind::InList { expr: expr_b, list: list_b, negated: negated_b },
        ) => negated == negated_b && bare_form(*expr, tq, *expr_b, tb) && list@.len()
            == list_b@.len() && bare_forms(list@, tq, list_b@, tb, list@.len()),
        (
            ExprKind::Other { form, operands },
            ExprKind::Other { form: form_b, operands: operands_b },
        ) => form@ == form_b@ && operands@.len() == operands_b@.len() && bare_forms(
            operands@,
            tq,
            operands_b@,
            tb,
            operands@.len(),
        ),
        (
            ExprKind::Value(_) | ExprKind::Array(_) | ExprKind::Function { .. },
            ExprKind::Value(_) | ExprKind::Array(_) | ExprKind::Function { .. },
        ) => expr::value_of(q) == expr::value_of(b),
        _ => same_column(q, tq, b, tb),
    }
}

/// Whether each of the first `n` of `bs` is one of `qs` with own names left out.
pub open spec fn bare_forms(
    qs: Seq<Expr>,
    tq: TableNames,
    bs: Seq<Expr>,
    tb: TableNames,
    n: nat,
) -> bool
    decreases qs, n,
{
    if n == 0 || n > qs.len() {
        true
    } else {
        bare_forms(qs, tq, bs, tb, (n - 1) as nat) && bare_form(qs[n - 1], tq, bs[n - 1], tb)
    }
}

/// Whether the condition `b` is the condition `q` with own names left out before some columns, and
/// with more or fewer parentheses around it and around the sides of each `OR`.
pub open spec fn bare_condition(q: Expr, tq: TableNames, b: Expr, tb: TableNames) -> bool
    decreases q, b,
{
    match (q.kind, b.kind) {
        (ExprKind::Nested(x), _) => bare_condition(*x, tq, b, tb),
        (_, ExprKind::Nested(y)) => bare_condition(q, tq, *y, tb),
        (
            ExprKind::BinaryOp { left, op: BinaryOperator::Or, right },
            ExprKind::BinaryOp { left: left_b, op: BinaryOperator::Or, right: right_b },
        ) => bare_condition(*left, tq, *left_b, tb) && bare_condition(*right, tq, *right_b, tb),
        _ => bare_form(q, tq, b, tb),
    }
}

/// A condition with the name of the statement's own table, or its alias, before its columns stands
/// for what it stands for without, and picks out the same keys.
pub proof fn law_qualified_conditions_are_planned_as_bare_ones(
    q: Expr,
    tq: TableNames,
    b: Expr,
    tb: TableNames,
    pk: Seq<char>,
)
    requires
        bare_condition(q, tq, b, tb),
    ensures
        qualified::resolved(q, tq) == qualified::resolved(b, tb),
        expr::point_keys(q, pk) == expr::point_keys(b, pk),
    decreases q, b,
{
    match (q.kind, b.kind) {
        (ExprKind::Nested(x), _) => {
            law_qualified_conditions_are_planned_as_bare_ones(*x, tq, b, tb, pk);
        },
        (_, ExprKind::Nested(y)) => {
            law_qualified_conditions_are_planned_as_bare_ones(q, tq, *y, tb, pk);
        },
        (
            ExprKind::BinaryOp { left, op: BinaryOperator::Or, right },
            ExprKind::BinaryOp { left: left_b, op: BinaryOperator::Or, right: right_b },
        ) => {
            law_qualified_conditions_are_planned_as_bare_ones(*left, tq, *left_b, tb, pk);
            law_qualified_conditions_are_planned_as_bare_ones(*right, tq, *right_b, tb, pk);
        },
        _ => {
            lemma_bare_form(q, tq, b, tb, pk);
        },
    }
}

proof fn lemma_bare_form(q: Expr, tq: TableNames, b: Expr, tb: TableNames, pk: Seq<char>)
    requires
        bare_form(q, tq, b, tb),
    ensures
        qualified::resolved(q, tq) == qualified::resolved(b, tb),
        expr::point_keys(q, pk) == expr::point_keys(b, pk),
        expr::names_column(q, pk) == expr::names_column(b, pk),
        same_value(q, b),
    decreases q, 0nat,
{
    match (q.kind, b.kind) {
        (ExprKind::Nested(x), ExprKind::Nested(y)) => {
            lemma_bare_form(*x, tq, *y, tb, pk);
        },
        (
            ExprKind::BinaryOp { left, op, right },
            ExprKind::BinaryOp { left: left_b, op: op_b, right: right_b },
        ) => {
            lemma_bare_form(*left, tq, *left_b, tb, pk);
            lemma_bare_form(*right, tq, *right_b, tb, pk);
        },
        (
            ExprKind::InList { expr, list, negated },
            ExprKind::InList { expr: expr_b, list: list_b, negated: negated_b },
        ) => {
            lemma_bare_form(*expr, tq, *expr_b, tb, pk);
            lemma_bare_forms(list@, tq, list_b@, tb, list@.len(), pk);
            assert(list@.take(list@.len() as int) =~= list@);
            assert(list_b@.take(list_b@.len() as int) =~= list_b@);
        },
        (
            ExprKind::Other { form, operands },
            ExprKind::Other { form: form_b, operands: operands_b },
        ) => {
            lemma_bare_forms(operands@, tq, operands_b@, tb, operands@.len(), pk);
        },
        _ => {},
    }
}

proof fn lemma_bare_forms(
    qs: Seq<Expr>,
    tq: TableNames,
    bs: Seq<Expr>,
    tb: TableNames,
    n: nat,
    pk: Seq<char>,
)
    requires
        n <= qs.len() == bs.len(),
        bare_forms(qs, tq, bs, tb, n),
    ensures
        qualified::all_resolved(qs, n, tq) == qualified::all_resolved(bs, n, tb),
        expr::known_values(qs.take(n as int)) == expr::known_values(bs.take(n as int)),
    decreases qs, n,
{
    if n > 0 {
        lemma_bare_forms(qs, tq, bs, tb, (n - 1) as nat, pk);
        lemma_bare_form(qs[n - 1], tq, bs[n - 1], tb, pk);
        assert(qs.take(n as int).drop_last() =~= qs.take(n - 1));
        assert(bs.take(n as int).drop_last() =~= bs.take(n - 1));
    }
}

/// Assignments with the name of the statement's own table, or its alias, before the columns that
/// they read set what they set without.
pub proof fn law_qualified_assignments_are_planned_as_bare_ones(
    qs: Seq<(String, Expr)>,
    tq: TableNames,
    bs: Seq<(String, Expr)>,
    tb: TableNames,
    n: nat,
)
    requires
        n <= qs.len() == bs.len(),
        forall|i: int|
            0 <= i < n ==> (#[trigger] qs[i]).0@ == bs[i].0@ && bare_condition(
                qs[i].1,
                tq,
                bs[i].1,
                tb,
            ),
    ensures
        qualified::assigned(qs, n, tq) == qualified::assigned(bs, n, tb),
    decreases n,
{
    if n > 0 {
        law_qualified_assignments_are_planned_as_bare_ones(qs, tq, bs, tb, (n - 1) as nat);
        assert(qs[n - 1].0@ == bs[n - 1].0@);
        law_qualified_conditions_are_planned_as_bare_ones(
            qs[n - 1].1,
            tq,
            bs[n - 1].1,
            tb,
            Seq::empty(),
        );
    }
}

/// Parentheses make no difference: neither to what a condition stands for nor to the keys that it
/// picks out.
pub proof fn law_parentheses_are_noise(n: Expr, t: TableNames, pk: Seq<char>)
    requires
        n.kind is Nested,
    ensures
        qualified::resolved(n, t) == qualified::resolved(*n.kind->Nested_0, t),
        expr::point_keys(n, pk) == expr::point_keys(*n.kind->Nested_0, pk),
{
}

/// Whether an expression holds a column behind the name of another table. What is inside an
/// expression that stands for a value does not count.
pub open spec fn mentions_other_table(e: Expr, t: TableNames) -> bool
    decreases e, 0nat,
{
    match e.kind {
        ExprKind::Nested(inner) => mentions_other_table(*inner, t),
        ExprKind::CompoundIdentifier(parts) => parts@.len() == 2 && !t.has(parts@[0]@),
        ExprKind::BinaryOp { left, op, right } => mentions_other_table(*left, t)
            || mentions_other_table(*right, t),
        ExprKind::InList { expr, list, negated } => mentions_other_table(*expr, t)
            || one_mentions_other_table(list@, list@.len(), t),
        ExprKind::Other { form, operands } => expr::value_of(e) is Error
            && one_mentions_other_table(operands@, operands@.len(), t),
        _ => false,
    }
}

/// Whether one of the first `n` expressions holds a column behind the name of another table.
pub open spec fn one_mentions_other_table(list: Seq<Expr>, n: nat, t: TableNames) -> bool
    decreases list, n,
{
    if n == 0 || n > list.len() {
        false
    } else {
        one_mentions_other_table(list, (n - 1) as nat, t) || mentions_other_table(list[n - 1], t)
    }
}

/// A column behind the name of another table is an error, wherever in a condition it stands. It
/// never comes to match nothing.
pub proof fn law_other_qualifiers_are_errors(e: Expr, t: TableNames)
    requires
        mentions_other_table(e, t),
    ensures
        qualified::resolved(e, t) is Error,
    decreases e, 0nat,
{
    match e.kind {
        ExprKind::Nested(inner) => {
            law_other_qualifiers_are_errors(*inner, t);
        },
        ExprKind::BinaryOp { left, op, right } => {
            if mentions_other_table(*left, t) {
                law_other_qualifiers_are_errors(*left, t);
            } else {
                law_other_qualifiers_are_errors(*right, t);
            }
        },
        ExprKind::InList { expr, list, negated } => {
            if mentions_other_table(*expr, t) {
                law_other_qualifiers_are_errors(*expr, t);
            } else {
                lemma_one_is_error(list@, list@.len(), t);
            }
        },
        ExprKind::Other { form, operands } => {
            lemma_one_is_error(operands@, operands@.len(), t);
        },
        _ => {},
    }
}

proof fn lemma_one_is_error(list: Seq<Expr>, n: nat, t: TableNames)
    requires
        one_mentions_other_table(list, n, t),
    ensures
        qualified::all_resolved(list, n, t) is Error,
    decreases list, n,
{
    if 0 < n <= list.len() {
        if one_mentions_other_table(list, (n - 1) as nat, t) {
            lemma_one_is_error(list, (n - 1) as nat, t);
        } else {
            law_other_qualifiers_are_errors(list[n - 1], t);
        }
    }
}

/// The keys of `a OR b` are those of `a` and then those of `b`.
pub proof fn law_or_joins_keys(e: Expr, pk: Seq<char>)
    requires
        e.kind matches ExprKind::BinaryOp { op: BinaryOperator::Or, .. },
    ensures
        expr::point_keys(e, pk) == expr::point_keys(*e.kind->BinaryOp_left, pk) + expr::point_keys(
            *e.kind->BinaryOp_right,
            pk,
        ),
{
}

/// Every row of a `VALUES` clause gives one row, with as many columns as it has values.
pub proof fn law_rows_keep_their_shape(columns: Seq<String>, rows: Seq<Vec<Expr>>, n: nat)
    requires
        n <= rows.len(),
        expr::value_rows(columns, rows, n) is Rows,
    ensures
        expr::value_rows(columns, rows, n)->Rows_0.len() == n,
        forall|i: int|
            0 <= i < n ==> (#[trigger] expr::value_rows(columns, rows, n)->Rows_0[i]).len()
                == rows[i]@.len(),
    decreases n,
{
    if n > 0 {
        law_rows_keep_their_shape(columns, rows, (n - 1) as nat);
        lemma_values_len(rows[n - 1]@, rows[n - 1]@.len());
    }
}

proof fn lemma_values_len(list: Seq<Expr>, n: nat)
    requires
        n <= list.len(),
    ensures
        expr::values_of(list, n) matches expr::ManyValued::Values(values) ==> values.len() == n,
    decreases n,
{
    if n > 0 {
        lemma_values_len(list, (n - 1) as nat);
    }
}

/// Every row of an insert into a key-value collection gives one entry.
pub proof fn law_rows_become_entries(l: Layout, rows: Seq<Vec<Expr>>, n: nat)
    requires
        n <= rows.len(),
        kv::entries_of(l, rows, n) is Got,
    ensures
        kv::entries_of(l, rows, n)->Got_0.0.len() == n,
    decreases n,
{
    if n > 0 {
        law_rows_become_entries(l, rows, (n - 1) as nat);
    }
}

/// A row that has a value for every column is never too short.
pub proof fn law_full_rows_can_be_read(
    columns: Seq<String>,
    key: Seq<char>,
    rows: Seq<Vec<Expr>>,
    n: nat,
)
    requires
        n <= rows.len(),
        forall|i: int| 0 <= i < n ==> (#[trigger] rows[i])@.len() >= columns.len(),
    ensures
        kv::entries_of(kv::layout_of(columns, key), rows, n) !is TooShort,
    decreases n,
{
    if n > 0 {
        let l = kv::layout_of(columns, key);
        law_full_rows_can_be_read(columns, key, rows, (n - 1) as nat);
        lemma_place_in_range(columns, key, 0);
        lemma_place_in_range(columns, "ttl"@, 0);
        lemma_columns_can_be_read(l, rows[n - 1]@, columns.len());
    }
}

proof fn lemma_place_in_range(columns: Seq<String>, name: Seq<char>, from: int)
    ensures
        kv::column_place(columns, name, from) matches Some(i) ==> 0 <= i < columns.len(),
    decreases columns.len() - from,
{
    if 0 <= from < columns.len() {
        lemma_place_in_range(columns, name, from + 1);
    }
}

proof fn lemma_columns_can_be_read(l: Layout, row: Seq<Expr>, n: nat)
    requires
        n <= l.columns.len() <= row.len(),
    ensures
        kv::stored_columns(l, row, n) !is TooShort,
    decreases n,
{
    if n > 0 {
        lemma_columns_can_be_read(l, row, (n - 1) as nat);
    }
}

/// Every row of an insert of vectors gives one row, none of them with a surrogate yet.
pub proof fn law_vector_rows_are_kept(field: Seq<char>, rows: Seq<Vec<Cell>>, n: nat)
    requires
        n <= rows.len(),
        vector::vector_rows(field, rows, n) is Rows,
    ensures
        vector::vector_rows(field, rows, n)->Rows_0.len() == n,
        forall|i: int|
            0 <= i < n ==> (#[trigger] vector::vector_rows(field, rows, n)->Rows_0[i]).surrogate
                == 0,
    decreases n,
{
    if n > 0 {
        law_vector_rows_are_kept(field, rows, (n - 1) as nat);
    }
}

/// The vector of a row that is kept holds nothing but numbers, and what goes with the row never
/// holds the vector.
pub proof fn law_vectors_hold_numbers(field: Seq<char>, row: Seq<Cell>)
    requires
        vector::vector_row(field, row) is Ok,
    ensures
        ({
            let built = vector::vector_row(field, row)->Ok_0;
            &&& forall|i: int|
                0 <= i < built.vector.len() ==> (#[trigger] built.vector[i]) is Int
                    || built.vector[i] is Float || built.vector[i] is Decimal
            &&& !built.payload_fields.contains_key(field)
        }),
{
    lemma_parts(field, row, row.len());
}

proof fn lemma_parts(field: Seq<char>, row: Seq<Cell>, n: nat)
    requires
        n <= row.len(),
    ensures
        vector::parts_of(field, row, n) matches vector::Parts::Parts { vector, payload } ==> {
            &&& !payload.contains_key(field)
            &&& vector matches Some(items) ==> forall|i: int|
                0 <= i < items.len() ==> (#[trigger] items[i]) is Int || items[i] is Float
                    || items[i] is Decimal
        },
    decreases n,
{
    if n > 0 {
        lemma_parts(field, row, (n - 1) as nat);
        match row[n - 1].1 {
            SqlValue::Array(items) => {
                lemma_no_fault(items@, items@.len());
            },
            _ => {},
        }
    }
}

proof fn lemma_no_fault(items: Seq<SqlValue>, n: nat)
    requires
        n <= items.len(),
    ensures
        vector::first_fault(items, n) is None ==> forall|i: int|
            0 <= i < n ==> (#[trigger] items[i]) is Int || items[i] is Float || items[i] is Decimal,
    decreases n,
{
    if n > 0 {
        lemma_no_fault(items, (n - 1) as nat);
    }
}

} // verus!
