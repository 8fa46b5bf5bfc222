//! Expressions that stand for values, and the keys that a condition picks out.

use vstd::prelude::*;

use super::error::{SqlError, SqlErrorView};
use super::value;
use super::value::{SqlValue, ValueView};
use crate::text;

verus! {

/// What the constant folder makes of an expression.
#[derive(Debug)]
pub enum Folded {
    Value(SqlValue),
    /// The expression depends on a row, or on when it is run.
    NotConstant,
    /// The expression cannot be resolved.
    Failed(SqlError),
}

/// An operator, as far as a condition depends on it.
#[derive(Debug)]
pub enum BinaryOperator {
    Eq,
    Or,
    /// Any other, by its sign.
    Other(String),
}

/// The form of an expression. Names are in the form in which they are compared.
#[derive(Debug)]
pub enum ExprKind {
    /// A literal, as the resolver takes it.
    Value(Result<SqlValue, SqlError>),
    Array(Vec<Expr>),
    /// A function, with what it stands for where it builds a shape.
    Function { shape: Option<Result<SqlValue, SqlError>> },
    /// An expression in parentheses.
    Nested(Box<Expr>),
    BinaryOp { left: Box<Expr>, op: BinaryOperator, right: Box<Expr> },
    InList { expr: Box<Expr>, list: Vec<Expr>, negated: bool },
    Identifier(String),
    CompoundIdentifier(Vec<String>),
    /// Any other form, by its name, with the expressions in it.
    Other { form: String, operands: Vec<Expr> },
}

/// An expression, with what the constant folder makes of it and how it is written.
#[derive(Debug)]
pub struct Expr {
    pub kind: ExprKind,
    pub folded: Folded,
    pub text: String,
}

/// The value of an expression, or why it has none.
pub enum Valued {
    Value(ValueView),
    Error(SqlErrorView),
}

/// The view of a value or an error.
pub open spec fn valued(r: Result<SqlValue, SqlError>) -> Valued {
    match r {
        Ok(v) => Valued::Value(v@),
        Err(e) => Valued::Error(e@),
    }
}

/// The value that the constant folder finds, or why it finds none.
pub open spec fn folded_value(e: Expr) -> Valued {
    match e.folded {
        Folded::Value(v) => Valued::Value(v@),
        Folded::NotConstant => Valued::Error(
            SqlErrorView::Unsupported { detail: "value expression: "@ + e.text@ },
        ),
        Folded::Failed(error) => Valued::Error(error@),
    }
}

/// The values of some expressions, or why the first without one has none.
pub enum ManyValued {
    Values(Seq<ValueView>),
    Error(SqlErrorView),
}

/// The value of an expression: a literal is what the resolver takes it for, an array has the values
/// of its elements, a function that builds a shape is that shape, and anything else is what the
/// constant folder makes of it.
pub open spec fn value_of(e: Expr) -> Valued
    decreases e, 0nat,
{
    match e.kind {
        ExprKind::Value(literal) => valued(literal),
        ExprKind::Array(items) => match values_of(items@, items@.len()) {
            ManyValued::Values(values) => Valued::Value(ValueView::Array(values)),
            ManyValued::Error(error) => Valued::Error(error),
        },
        ExprKind::Function { shape: Some(shape) } => valued(shape),
        _ => folded_value(e),
    }
}

/// The values of the first `n` of some expressions.
pub open spec fn values_of(list: Seq<Expr>, n: nat) -> ManyValued
    decreases list, n,
{
    if n == 0 || n > list.len() {
        ManyValued::Values(Seq::empty())
    } else {
        match values_of(list, (n - 1) as nat) {
            ManyValued::Error(error) => ManyValued::Error(error),
            ManyValued::Values(values) => match value_of(list[n - 1]) {
                Valued::Error(error) => ManyValued::Error(error),
                Valued::Value(v) => ManyValued::Values(values.push(v)),
            },
        }
    }
}

proof fn lemma_first_error(list: Seq<Expr>, k: nat, n: nat)
    requires
        k <= n <= list.len(),
        values_of(list, k) is Error,
    ensures
        values_of(list, n) == values_of(list, k),
    decreases n,
{
    if k < n {
        lemma_first_error(list, k, (n - 1) as nat);
    }
}

fn literal_value(r: &Result<SqlValue, SqlError>) -> (v: Result<SqlValue, SqlError>)
    ensures
        valued(v) == valued(*r),
{
    match r {
        Ok(v) => Ok(v.copied()),
        Err(e) => Err(e.copied()),
    }
}

/// The value that the constant folder finds.
pub fn fold_constant_value(expr: &Expr) -> (r: Result<SqlValue, SqlError>)
    ensures
        valued(r) == folded_value(*expr),
        match expr.folded {
            Folded::Value(v) => r matches Ok(x) && x@ == v@,
            Folded::NotConstant => r matches Err(e) && e@ == (SqlErrorView::Unsupported {
                detail: "value expression: "@ + expr.text@,
            }),
            Folded::Failed(error) => r matches Err(e) && e@ == error@,
        },
{
    match &expr.folded {
        Folded::Value(v) => Ok(v.copied()),
        Folded::NotConstant => Err(
            SqlError::Unsupported {
                detail: "value expression: ".to_owned().concat(expr.text.as_str()),
            },
        ),
        Folded::Failed(error) => Err(error.copied()),
    }
}

/// The value of an expression.
pub fn expr_to_sql_value(expr: &Expr) -> (r: Result<SqlValue, SqlError>)
    ensures
        valued(r) == value_of(*expr),
    decreases *expr,
{
    match &expr.kind {
        ExprKind::Value(literal) => literal_value(literal),
        ExprKind::Array(items) => {
            let mut values: Vec<SqlValue> = Vec::new();
            let mut i: usize = 0;
            assert(value::value_views(values@) =~= Seq::empty());
            while i < items.len()
                invariant
                    expr.kind == ExprKind::Array(*items),
                    i <= items@.len(),
                    values_of(items@, i as nat) == ManyValued::Values(value::value_views(values@)),
                decreases items@.len() - i,
            {
                assert(decreases_to!(*expr => expr.kind));
                assert(decreases_to!(expr.kind => expr.kind->Array_0));
                assert(decreases_to!(items => items@));
                assert(decreases_to!(items@ => items@[i as int]));
                let ghost before = values@;
                match expr_to_sql_value(&items[i]) {
                    Ok(v) => {
                        values.push(v);
                        assert(value::value_views(values@) =~= value::value_views(before).push(v@));
                    },
                    Err(e) => {
                        proof {
                            lemma_first_error(items@, i as nat + 1, items@.len());
                        }
                        return Err(e);
                    },
                }
                i += 1;
            }
            proof {
                value::lemma_array_view(values);
            }
            Ok(SqlValue::Array(values))
        },
        ExprKind::Function { shape } => match shape {
            Some(shape) => literal_value(shape),
            None => fold_constant_value(expr),
        },
        _ => fold_constant_value(expr),
    }
}

/// A column of a row with its value.
pub type Cell = (String, SqlValue);

/// The view of a column of a row with its value.
pub open spec fn cell_view(c: Cell) -> (Seq<char>, ValueView) {
    (c.0@, c.1@)
}

/// The views of the columns of a row.
pub open spec fn cell_views(row: Seq<Cell>) -> Seq<(Seq<char>, ValueView)> {
    row.map_values(|c: Cell| cell_view(c))
}

/// The views of some rows.
pub open spec fn row_views(rows: Seq<Vec<Cell>>) -> Seq<Seq<(Seq<char>, ValueView)>> {
    rows.map_values(|row: Vec<Cell>| cell_views(row@))
}

/// The name of the column at `i`: that in the list of columns, or a number where the list is too
/// short.
pub open spec fn column_name(columns: Seq<String>, i: int) -> Seq<char> {
    if 0 <= i < columns.len() {
        columns[i]@
    } else {
        "col"@ + text::decimal(i as nat)
    }
}

/// The columns of a row with their values.
pub open spec fn named_values(columns: Seq<String>, values: Seq<ValueView>) -> Seq<
    (Seq<char>, ValueView),
> {
    Seq::new(values.len(), |i: int| (column_name(columns, i), values[i]))
}

/// Some rows, or why they cannot be had.
pub enum ManyRows {
    Rows(Seq<Seq<(Seq<char>, ValueView)>>),
    Error(SqlErrorView),
}

/// The view of some rows or an error.
pub open spec fn rows_or_error(r: Result<Vec<Vec<Cell>>, SqlError>) -> ManyRows {
    match r {
        Ok(rows) => ManyRows::Rows(row_views(rows@)),
        Err(e) => ManyRows::Error(e@),
    }
}

/// The first `n` rows of a `VALUES` clause with the names of their columns, or why the first value
/// that there is none of, row by row, cannot be had.
pub open spec fn value_rows(columns: Seq<String>, rows: Seq<Vec<Expr>>, n: nat) -> ManyRows
    decreases n,
{
    if n == 0 || n > rows.len() {
        ManyRows::Rows(Seq::empty())
    } else {
        match value_rows(columns, rows, (n - 1) as nat) {
            ManyRows::Error(e) => ManyRows::Error(e),
            ManyRows::Rows(before) => {
                let row = rows[n - 1]@;
                match values_of(row, row.len()) {
                    ManyValued::Error(e) => ManyRows::Error(e),
                    ManyValued::Values(values) => ManyRows::Rows(
                        before.push(named_values(columns, values)),
                    ),
                }
            },
        }
    }
}

proof fn lemma_first_row_error(columns: Seq<String>, rows: Seq<Vec<Expr>>, k: nat, n: nat)
    requires
        k <= n <= rows.len(),
        value_rows(columns, rows, k) is Error,
    ensures
        value_rows(columns, rows, n) == value_rows(columns, rows, k),
    decreases n,
{
    if k < n {
        lemma_first_row_error(columns, rows, k, (n - 1) as nat);
    }
}

fn column_at(columns: &[String], i: usize) -> (r: String)
    ensures
        r@ == column_name(columns@, i as int),
{
    if i < columns.len() {
        columns[i].clone()
    } else {
        "col".to_owned().concat(text::decimal_text(i as u64).as_str())
    }
}

/// One row of a `VALUES` clause with the names of its columns.
fn convert_row(columns: &[String], row: &Vec<Expr>) -> (r: Result<Vec<Cell>, SqlError>)
    ensures
        match (r, values_of(row@, row@.len())) {
            (Ok(cells), ManyValued::Values(values)) => cell_views(cells@) == named_values(
                columns@,
                values,
            ),
            (Err(e), ManyValued::Error(error)) => e@ == error,
            _ => false,
        },
{
    let mut cells: Vec<Cell> = Vec::new();
    let ghost mut values: Seq<ValueView> = Seq::empty();
    let mut i: usize = 0;
    assert(cell_views(cells@) =~= named_values(columns@, values));
    while i < row.len()
        invariant
            i <= row@.len(),
            values.len() == i,
            values_of(row@, i as nat) == ManyValued::Values(values),
            cell_views(cells@) == named_values(columns@, values),
        decreases row@.len() - i,
    {
        let ghost before = cells@;
        let ghost known = values;
        let name = column_at(columns, i);
        match expr_to_sql_value(&row[i]) {
            Ok(v) => {
                cells.push((name, v));
                proof {
                    values = values.push(v@);
                    assert(cell_views(cells@) =~= cell_views(before).push((name@, v@)));
                    assert(named_values(columns@, values) =~= named_values(columns@, known).push(
                        (name@, v@),
                    ));
                }
            },
            Err(e) => {
                proof {
                    lemma_first_error(row@, i as nat + 1, row@.len());
                }
                return Err(e);
            },
        }
        i += 1;
    }
    Ok(cells)
}

/// The rows of a `VALUES` clause with the names of their columns.
pub fn convert_value_rows(columns: &[String], rows: &[Vec<Expr>]) -> (r: Result<
    Vec<Vec<Cell>>,
    SqlError,
>)
    ensures
        rows_or_error(r) == value_rows(columns@, rows@, rows@.len()),
{
    let mut out: Vec<Vec<Cell>> = Vec::new();
    let mut i: usize = 0;
    assert(row_views(out@) =~= Seq::empty());
    while i < rows.len()
        invariant
            i <= rows@.len(),
            value_rows(columns@, rows@, i as nat) == ManyRows::Rows(row_views(out@)),
        decreases rows@.len() - i,
    {
        let ghost before = out@;
        match convert_row(columns, &rows[i]) {
            Ok(row) => {
                out.push(row);
                assert(row_views(out@) =~= row_views(before).push(cell_views(row@)));
            },
            Err(e) => {
                proof {
                    lemma_first_row_error(columns@, rows@, i as nat + 1, rows@.len());
                }
                return Err(e);
            },
        }
        i += 1;
    }
    Ok(out)
}

/// What a statement changes.
#[derive(Debug)]
pub enum TableTarget {
    /// A table, by the form of its name in which it is compared, or why it has none.
    Table(Result<String, SqlError>),
    /// Anything else.
    Other,
}

/// The name of the table that a statement changes.
pub fn extract_table_name_from_table_with_joins(table: TableTarget) -> (r: Result<String, SqlError>)
    ensures
        match table {
            TableTarget::Table(name) => r == name,
            TableTarget::Other => r matches Err(e) && e@ == (SqlErrorView::Unsupported {
                detail: "non-table target in DML"@,
            }),
        },
{
    match table {
        TableTarget::Table(name) => name,
        TableTarget::Other => Err(
            SqlError::Unsupported { detail: "non-table target in DML".to_owned() },
        ),
    }
}

/// What planning knows of a collection.
#[derive(Debug)]
pub struct CollectionInfo {
    pub name: String,
    pub primary_key: Option<String>,
}

/// Whether an expression is the column `name`, on its own or behind the name of a table.
pub open spec fn names_column(e: Expr, name: Seq<char>) -> bool {
    match e.kind {
        ExprKind::Identifier(n) => n@ == name,
        ExprKind::CompoundIdentifier(parts) => parts@.len() == 2 && parts@[1]@ == name,
        _ => false,
    }
}

/// The values of those expressions that have one.
pub open spec fn known_values(list: Seq<Expr>) -> Seq<ValueView>
    decreases list.len(),
{
    if list.len() == 0 {
        Seq::empty()
    } else {
        let before = known_values(list.drop_last());
        match value_of(list.last()) {
            Valued::Value(v) => before.push(v),
            Valued::Error(_) => before,
        }
    }
}

/// The value of an expression, if it has one, as a sequence.
pub open spec fn known_value(e: Expr) -> Seq<ValueView> {
    match value_of(e) {
        Valued::Value(v) => seq![v],
        Valued::Error(_) => Seq::empty(),
    }
}

/// The keys that a condition picks out: those that the primary key is compared with by `=` or in a
/// list, on both sides of every `OR`, in the order in which they are written.
pub open spec fn point_keys(e: Expr, pk: Seq<char>) -> Seq<ValueView>
    decreases e,
{
    match e.kind {
        ExprKind::Nested(inner) => point_keys(*inner, pk),
        ExprKind::BinaryOp { left, op: BinaryOperator::Eq, right } => if names_column(*left, pk)
            && value_of(*right) is Value {
            known_value(*right)
        } else if names_column(*right, pk) {
            known_value(*left)
        } else {
            Seq::empty()
        },
        ExprKind::BinaryOp { left, op: BinaryOperator::Or, right } => point_keys(*left, pk)
            + point_keys(*right, pk),
        ExprKind::InList { expr, list, negated: false } => if names_column(*expr, pk) {
            known_values(list@)
        } else {
            Seq::empty()
        },
        _ => Seq::empty(),
    }
}

/// Whether an expression is the column `name`.
fn is_column(expr: &Expr, name: &str) -> (r: bool)
    ensures
        r == names_column(*expr, name@),
{
    match &expr.kind {
        ExprKind::Identifier(n) => text::same_text(n.as_str(), name),
        ExprKind::CompoundIdentifier(parts) => parts.len() == 2 && text::same_text(
            parts[1].as_str(),
            name,
        ),
        _ => false,
    }
}

fn push_known(expr: &Expr, keys: &mut Vec<SqlValue>) -> (pushed: bool)
    ensures
        pushed == (value_of(*expr) is Value),
        value::value_views(final(keys)@) == value::value_views(old(keys)@) + known_value(*expr),
{
    let ghost before = keys@;
    match expr_to_sql_value(expr) {
        Ok(v) => {
            keys.push(v);
            assert(value::value_views(keys@) =~= value::value_views(before) + seq![v@]);
            true
        },
        Err(_) => {
            assert(value::value_views(keys@) =~= value::value_views(before) + known_value(*expr));
            false
        },
    }
}

fn collect_pk_equalities(expr: &Expr, pk: &str, keys: &mut Vec<SqlValue>)
    ensures
        value::value_views(final(keys)@) == value::value_views(old(keys)@) + point_keys(*expr, pk@),
    decreases *expr,
{
    let ghost start = value::value_views(keys@);
    match &expr.kind {
        ExprKind::Nested(inner) => {
            collect_pk_equalities(inner, pk, keys);
        },
        ExprKind::BinaryOp { left, op, right } => match op {
            BinaryOperator::Eq => {
                if is_column(left, pk) {
                    if push_known(right, keys) {
                        return;
                    }
                    assert(value::value_views(keys@) =~= start);
                }
                if is_column(right, pk) {
                    let _ = push_known(left, keys);
                } else {
                    assert(value::value_views(keys@) =~= start + point_keys(*expr, pk@));
                }
            },
            BinaryOperator::Or => {
                collect_pk_equalities(left, pk, keys);
                collect_pk_equalities(right, pk, keys);
                assert(value::value_views(keys@) =~= start + point_keys(*expr, pk@));
            },
            BinaryOperator::Other(_) => {
                assert(value::value_views(keys@) =~= start + point_keys(*expr, pk@));
            },
        },
        ExprKind::InList { expr: inner, list, negated } => {
            if !*negated && is_column(inner, pk) {
                let mut i: usize = 0;
                assert(start + known_values(list@.take(0)) =~= start);
                while i < list.len()
                    invariant
                        i <= list@.len(),
                        value::value_views(keys@) == start + known_values(list@.take(i as int)),
                    decreases list@.len() - i,
                {
                    let _ = push_known(&list[i], keys);
                    proof {
                        let shown = list@.take(i as int + 1);
                        assert(shown.drop_last() =~= list@.take(i as int));
                        assert(shown.last() == list@[i as int]);
                        assert(value::value_views(keys@) =~= start + known_values(shown));
                    }
                    i += 1;
                }
                assert(list@.take(i as int) =~= list@);
            } else {
                assert(value::value_views(keys@) =~= start + point_keys(*expr, pk@));
            }
        },
        _ => {
            assert(value::value_views(keys@) =~= start + point_keys(*expr, pk@));
        },
    }
}

/// The keys that the condition of a statement picks out; none without a condition or a primary key.
pub fn extract_point_keys(selection: Option<&Expr>, info: &CollectionInfo) -> (r: Vec<SqlValue>)
    ensures
        value::value_views(r@) == (match (info.primary_key, selection) {
            (Some(pk), Some(e)) => point_keys(*e, pk@),
            _ => Seq::empty(),
        }),
{
    let mut keys: Vec<SqlValue> = Vec::new();
    assert(value::value_views(keys@) =~= Seq::empty());
    match (&info.primary_key, selection) {
        (Some(pk), Some(e)) => {
            collect_pk_equalities(e, pk.as_str(), &mut keys);
            assert(value::value_views(keys@) =~= point_keys(*e, pk@));
        },
        _ => {},
    }
    keys
}

} // verus!
