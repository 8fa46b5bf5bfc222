//! What holds of values, of the rows of a `VALUES` clause and of the keys of a condition.

use vstd::prelude::*;

use super::error::{FaultView, SqlError, SqlErrorView, VectorFault};
use super::expr;
use super::expr::{BinaryOperator, Cell, Expr, ExprKind, Folded, ManyRows, ManyValued, Valued};
use super::meaning;
use super::meaning::Meaning;
use super::value::{SqlValue, ValueView};
use crate::lists;
use crate::text;

verus! {

/// A value is told apart by its kind and by what it holds, an array by its elements.
pub proof fn law_a_value_is_what_it_holds(v: SqlValue)
    ensures
        match v {
            SqlValue::Null => v@ == ValueView::Null,
            SqlValue::Bool(b) => v@ == ValueView::Bool(b),
            SqlValue::Int(n) => v@ == ValueView::Int(n),
            SqlValue::Float(bits) => v@ == ValueView::Float(bits),
            SqlValue::Decimal(d) => v@ == ValueView::Decimal(d),
            SqlValue::String(s) => v@ == ValueView::String(s@),
            SqlValue::Bytes(b) => v@ == ValueView::Bytes(b@),
            SqlValue::Array(items) => v@ matches ValueView::Array(all) && all.len() == items@.len()
                && forall|i: int| 0 <= i < all.len() ==> #[trigger] all[i] == items@[i]@,
        },
{
    match v {
        SqlValue::Array(items) => {
            super::value::lemma_array_view(items);
            let all = v@->Array_0;
            assert forall|i: int| 0 <= i < all.len() implies #[trigger] all[i] == items@[i]@ by {
                assert(all[i] == super::value::value_views(items@)[i]);
            }
        },
        _ => {},
    }
}

/// An error is told apart by its kind and by what it names.
pub proof fn law_an_error_is_what_it_names(e: SqlError)
    ensures
        match e {
            SqlError::Unsupported { detail } => e@ == (SqlErrorView::Unsupported { detail: detail@ }),
            SqlError::UnknownTable { name } => e@ == (SqlErrorView::UnknownTable { name: name@ }),
            SqlError::Unresolved { reason } => e@ == (SqlErrorView::Unresolved { reason: reason@ }),
            SqlError::Vector(VectorFault::DecimalOutOfRange(d)) => e@ == SqlErrorView::Vector(
                FaultView::DecimalOutOfRange(d),
            ),
            SqlError::Vector(VectorFault::NotANumber(v)) => e@ == SqlErrorView::Vector(
                FaultView::NotANumber(v@),
            ),
            SqlError::Vector(VectorFault::NotAnArray { field, value }) => e@
                == SqlErrorView::Vector(FaultView::NotAnArray { field: field@, value: value@ }),
            SqlError::Vector(VectorFault::Missing { field }) => e@ == SqlErrorView::Vector(
                FaultView::Missing { field: field@ },
            ),
        },
{
}

/// Whether the expression at `i` is the first of `list` without a value, and `error` why it has none.
pub open spec fn fails_first(list: Seq<Expr>, i: int, error: SqlErrorView) -> bool {
    &&& 0 <= i < list.len()
    &&& expr::value_of(list[i]) == Valued::Error(error)
    &&& forall|j: int| 0 <= j < i ==> expr::value_of(#[trigger] list[j]) is Value
}

/// The values of some expressions are their values, in their order; where one has none, the first
/// such says why.
pub proof fn lemma_values_of(list: Seq<Expr>, n: nat)
    requires
        n <= list.len(),
    ensures
        match expr::values_of(list, n) {
            ManyValued::Values(values) => values.len() == n && forall|i: int|
                0 <= i < n ==> expr::value_of(#[trigger] list[i]) == Valued::Value(values[i]),
            ManyValued::Error(error) => exists|i: int| i < n && #[trigger] fails_first(list, i, error),
        },
    decreases n,
{
    if n > 0 {
        lemma_values_of(list, (n - 1) as nat);
        match expr::values_of(list, (n - 1) as nat) {
            ManyValued::Error(error) => {
                let i = choose|i: int| i < n - 1 && #[trigger] fails_first(list, i, error);
                assert(fails_first(list, i, error));
            },
            ManyValued::Values(values) => {
                match expr::value_of(list[n - 1]) {
                    Valued::Error(error) => {
                        assert(fails_first(list, n - 1, error));
                    },
                    _ => {},
                }
            },
        }
    }
}

/// The value of an expression: a literal is itself, a function that builds a shape is that shape, an
/// array has the values of its elements in their order, and anything else is what the constant
/// folder makes of it. What cannot be had is an error, in an array that of the first element.
pub proof fn law_the_value_of_an_expression(e: Expr)
    ensures
        match e.kind {
            ExprKind::Value(Ok(v)) => expr::value_of(e) == Valued::Value(v@),
            ExprKind::Value(Err(error)) => expr::value_of(e) == Valued::Error(error@),
            ExprKind::Function { shape: Some(Ok(v)) } => expr::value_of(e) == Valued::Value(v@),
            ExprKind::Function { shape: Some(Err(error)) } => expr::value_of(e) == Valued::Error(
                error@,
            ),
            ExprKind::Array(items) => match expr::value_of(e) {
                Valued::Value(v) => v matches ValueView::Array(all) && all.len() == items@.len()
                    && forall|i: int|
                    0 <= i < all.len() ==> expr::value_of(#[trigger] items@[i]) == Valued::Value(
                        all[i],
                    ),
                Valued::Error(error) => exists|i: int| #[trigger] fails_first(items@, i, error),
            },
            _ => match e.folded {
                Folded::Value(v) => expr::value_of(e) == Valued::Value(v@),
                Folded::NotConstant => expr::value_of(e) == Valued::Error(
                    SqlErrorView::Unsupported { detail: "value expression: "@ + e.text@ },
                ),
                Folded::Failed(error) => expr::value_of(e) == Valued::Error(error@),
            },
        },
{
    match e.kind {
        ExprKind::Array(items) => {
            lemma_values_of(items@, items@.len());
        },
        _ => {},
    }
}

/// Whether the value at `i` of the row at `r` is the first, row by row, that there is none of, and
/// `error` why.
pub open spec fn cell_fails_first(rows: Seq<Vec<Expr>>, r: int, i: int, error: SqlErrorView) -> bool {
    &&& 0 <= r < rows.len()
    &&& fails_first(rows[r]@, i, error)
    &&& forall|q: int, j: int|
        0 <= q < r && 0 <= j < rows[q]@.len() ==> expr::value_of(#[trigger] rows[q]@[j]) is Value
}

proof fn lemma_value_rows(columns: Seq<String>, rows: Seq<Vec<Expr>>, n: nat)
    requires
        n <= rows.len(),
    ensures
        match expr::value_rows(columns, rows, n) {
            ManyRows::Rows(all) => {
                &&& all.len() == n
                &&& forall|r: int| 0 <= r < n ==> (#[trigger] all[r]).len() == rows[r]@.len()
                &&& forall|r: int, i: int|
                    0 <= r < n && 0 <= i < rows[r]@.len() ==> expr::value_of(#[trigger] rows[r]@[i])
                        == Valued::Value(all[r][i].1)
                &&& forall|r: int, i: int|
                    0 <= r < n && 0 <= i < rows[r]@.len() ==> (#[trigger] all[r][i]).0 == (if i
                        < columns.len() {
                        columns[i]@
                    } else {
                        "col"@ + text::decimal(i as nat)
                    })
            },
            ManyRows::Error(error) => exists|r: int, i: int|
                r < n && #[trigger] cell_fails_first(rows, r, i, error),
        },
    decreases n,
{
    if n > 0 {
        let row = rows[n - 1]@;
        lemma_value_rows(columns, rows, (n - 1) as nat);
        lemma_values_of(row, row.len());
        match expr::value_rows(columns, rows, (n - 1) as nat) {
            ManyRows::Error(error) => {
                let (r, i) = choose|r: int, i: int|
                    r < n - 1 && #[trigger] cell_fails_first(rows, r, i, error);
                assert(cell_fails_first(rows, r, i, error));
            },
            ManyRows::Rows(before) => {
                match expr::values_of(row, row.len()) {
                    ManyValued::Error(error) => {
                        let i = choose|i: int| i < row.len() && #[trigger] fails_first(row, i, error);
                        assert(cell_fails_first(rows, n - 1, i, error));
                    },
                    ManyValued::Values(values) => {
                        let all = expr::value_rows(columns, rows, n)->Rows_0;
                        assert(all == before.push(expr::named_values(columns, values)));
                        assert forall|r: int| 0 <= r < n implies (#[trigger] all[r]).len()
                            == rows[r]@.len() by {
                            if r < n - 1 {
                                assert(all[r] == before[r]);
                            }
                        }
                        assert forall|r: int, i: int|
                            0 <= r < n && 0 <= i < rows[r]@.len() implies expr::value_of(
                            #[trigger] rows[r]@[i],
                        ) == Valued::Value(all[r][i].1) by {
                            if r < n - 1 {
                                assert(all[r] == before[r]);
                            }
                        }
                        assert forall|r: int, i: int|
                            0 <= r < n && 0 <= i < rows[r]@.len() implies (#[trigger] all[r][i]).0
                            == (if i < columns.len() {
                            columns[i]@
                        } else {
                            "col"@ + text::decimal(i as nat)
                        }) by {
                            if r < n - 1 {
                                assert(before[r][i] == all[r][i]);
                            }
                        }
                    },
                }
            },
        }
    }
}

/// Every value of a `VALUES` clause goes to the column at its own place: the cell at a place has the
/// name that the list of columns has there, or a number where the list is too short, and the value
/// that the row holds there.
pub proof fn law_values_go_to_their_columns(
    columns: Seq<String>,
    rows: Seq<Vec<Expr>>,
    out: Vec<Vec<Cell>>,
)
    requires
        expr::rows_or_error(Ok::<Vec<Vec<Cell>>, SqlError>(out)) == expr::value_rows(
            columns,
            rows,
            rows.len(),
        ),
    ensures
        out@.len() == rows.len(),
        forall|r: int| 0 <= r < rows.len() ==> (#[trigger] out@[r])@.len() == rows[r]@.len(),
        forall|r: int, i: int|
            0 <= r < rows.len() && 0 <= i < rows[r]@.len() ==> expr::value_of(
                #[trigger] rows[r]@[i],
            ) == Valued::Value(out@[r]@[i].1@),
        forall|r: int, i: int|
            0 <= r < rows.len() && 0 <= i < rows[r]@.len() && i < columns.len() ==> (
            #[trigger] out@[r]@[i]).0@ == columns[i]@,
        forall|r: int, i: int|
            0 <= r < rows.len() && columns.len() <= i < rows[r]@.len() ==> (
            #[trigger] out@[r]@[i]).0@ == "col"@ + text::decimal(i as nat),
{
    lemma_value_rows(columns, rows, rows.len());
    let all = expr::value_rows(columns, rows, rows.len())->Rows_0;
    assert(all == expr::row_views(out@));
    assert forall|r: int| 0 <= r < rows.len() implies (#[trigger] out@[r])@.len()
        == rows[r]@.len() by {
        assert(all[r] == expr::cell_views(out@[r]@));
    }
    assert forall|r: int, i: int|
        0 <= r < rows.len() && 0 <= i < rows[r]@.len() implies expr::value_of(
        #[trigger] rows[r]@[i],
    ) == Valued::Value(out@[r]@[i].1@) by {
        assert(all[r] == expr::cell_views(out@[r]@));
        assert(all[r][i].1 == out@[r]@[i].1@);
    }
    assert forall|r: int, i: int| 0 <= r < rows.len() && 0 <= i < rows[r]@.len() implies (
    #[trigger] out@[r]@[i]).0@ == (if i < columns.len() {
        columns[i]@
    } else {
        "col"@ + text::decimal(i as nat)
    }) by {
        assert(all[r] == expr::cell_views(out@[r]@));
        assert(all[r][i].0 == out@[r]@[i].0@);
    }
}

/// The rows of a `VALUES` clause are refused only where some value cannot be had, and then for the
/// first such, row by row.
pub proof fn law_why_rows_are_refused(columns: Seq<String>, rows: Seq<Vec<Expr>>, error: SqlError)
    requires
        expr::rows_or_error(Err::<Vec<Vec<Cell>>, SqlError>(error)) == expr::value_rows(
            columns,
            rows,
            rows.len(),
        ),
    ensures
        exists|r: int, i: int| #[trigger] cell_fails_first(rows, r, i, error@),
{
    lemma_value_rows(columns, rows, rows.len());
}

/// Whether an expression is the column `pk`, written alone or behind one other name.
pub open spec fn is_key(e: Expr, pk: Seq<char>) -> bool {
    match e.kind {
        ExprKind::Identifier(n) => n@ == pk,
        ExprKind::CompoundIdentifier(parts) => parts@.len() == 2 && parts@[1]@ == pk,
        _ => false,
    }
}

/// Which elements of a list have a value.
pub open spec fn has_value(list: Seq<Expr>) -> spec_fn(int) -> bool {
    |i: int| expr::value_of(list[i]) is Value
}

/// The keys that a comparison picks out: with `=`, the value that the primary key is compared with,
/// on either side; in a list, the values of the list in their order. No other operator, no other
/// column, no negated list and no other form picks out anything.
pub proof fn law_which_keys_are_picked(e: Expr, pk: Seq<char>)
    ensures
        match e.kind {
            ExprKind::Nested(inner) => expr::point_keys(e, pk) == expr::point_keys(*inner, pk),
            ExprKind::BinaryOp { left, op: BinaryOperator::Or, right } => expr::point_keys(e, pk)
                == expr::point_keys(*left, pk) + expr::point_keys(*right, pk),
            ExprKind::BinaryOp { left, op: BinaryOperator::Eq, right } => {
                &&& is_key(*left, pk) && expr::value_of(*right) is Value ==> expr::point_keys(e, pk)
                    == seq![expr::value_of(*right)->Value_0]
                &&& is_key(*right, pk) && expr::value_of(*left) is Value && !(is_key(*left, pk)
                    && expr::value_of(*right) is Value) ==> expr::point_keys(e, pk)
                    == seq![expr::value_of(*left)->Value_0]
                &&& !(is_key(*left, pk) && expr::value_of(*right) is Value) && !(is_key(*right, pk)
                    && expr::value_of(*left) is Value) ==> expr::point_keys(e, pk).len() == 0
            },
            ExprKind::InList { expr, list, negated } => if negated || !is_key(*expr, pk) {
                expr::point_keys(e, pk).len() == 0
            } else {
                &&& expr::point_keys(e, pk).len() == lists::count(has_value(list@), list@.len())
                &&& forall|i: int|
                    0 <= i < list@.len() && expr::value_of(#[trigger] list@[i]) is Value
                        ==> expr::value_of(list@[i]) == Valued::Value(
                        expr::point_keys(e, pk)[lists::count(has_value(list@), i as nat) as int],
                    )
            },
            _ => expr::point_keys(e, pk).len() == 0,
        },
{
    match e.kind {
        ExprKind::InList { expr, list, negated } => {
            lemma_known_values(list@, list@.len());
            assert(list@.take(list@.len() as int) =~= list@);
        },
        _ => {},
    }
}

proof fn lemma_known_values(list: Seq<Expr>, n: nat)
    requires
        n <= list.len(),
    ensures
        expr::known_values(list.take(n as int)).len() == lists::count(has_value(list), n),
        forall|i: int|
            0 <= i < n && expr::value_of(#[trigger] list[i]) is Value ==> lists::count(
                has_value(list),
                i as nat,
            ) < lists::count(has_value(list), n) && expr::value_of(list[i]) == Valued::Value(
                expr::known_values(list.take(n as int))[lists::count(has_value(list), i as nat) as int],
            ),
    decreases n,
{
    if n > 0 {
        lemma_known_values(list, (n - 1) as nat);
        assert(list.take(n as int).drop_last() =~= list.take(n - 1));
        assert(list.take(n as int).last() == list[n - 1]);
        assert(has_value(list)(n - 1) == (expr::value_of(list[n - 1]) is Value));
    }
}

/// Whether the operators mean what they do of keys: `=` that two values are the same, `OR` that one
/// side holds, and a list that a value is in it.
pub open spec fn as_usual(m: Meaning) -> bool {
    &&& forall|a: ValueView, b: ValueView| #[trigger] (m.equal)(a, b) == ValueView::Bool(a == b)
    &&& forall|a: bool, b: bool| #[trigger]
        (m.either)(ValueView::Bool(a), ValueView::Bool(b)) == ValueView::Bool(a || b)
    &&& forall|a: ValueView, list: Seq<ValueView>| #[trigger]
        (m.listed)(a, list, false) == ValueView::Bool(list.contains(a))
}

/// Whether an expression is a literal, an array or a shape, with a value.
pub open spec fn is_literal(e: Expr) -> bool {
    (e.kind is Value || e.kind is Array || e.kind is Function) && expr::value_of(e) is Value
}

/// Whether a condition only compares the primary key with literals.
pub open spec fn only_keys(e: Expr, pk: Seq<char>) -> bool
    decreases e,
{
    match e.kind {
        ExprKind::Nested(inner) => only_keys(*inner, pk),
        ExprKind::BinaryOp { left, op: BinaryOperator::Eq, right } => is_key(*left, pk)
            && is_literal(*right) || is_literal(*left) && is_key(*right, pk),
        ExprKind::BinaryOp { left, op: BinaryOperator::Or, right } => only_keys(*left, pk)
            && only_keys(*right, pk),
        ExprKind::InList { expr, list, negated } => !negated && is_key(*expr, pk) && forall|i: int|
            0 <= i < list@.len() ==> is_literal(#[trigger] list@[i]),
        _ => false,
    }
}

/// A condition that only compares the primary key with literals holds of exactly the rows whose key
/// it picks out.
pub proof fn law_keys_decide_key_conditions(e: Expr, pk: Seq<char>, m: Meaning)
    requires
        only_keys(e, pk),
        as_usual(m),
    ensures
        meaning::written(e, m) == ValueView::Bool(
            expr::point_keys(e, pk).contains((m.column)(pk)),
        ),
    decreases e,
{
    let key = (m.column)(pk);
    match e.kind {
        ExprKind::Nested(inner) => {
            law_keys_decide_key_conditions(*inner, pk, m);
        },
        ExprKind::BinaryOp { left, op: BinaryOperator::Or, right } => {
            law_keys_decide_key_conditions(*left, pk, m);
            law_keys_decide_key_conditions(*right, pk, m);
            let a = expr::point_keys(*left, pk);
            let b = expr::point_keys(*right, pk);
            assert((a + b).contains(key) <==> a.contains(key) || b.contains(key)) by {
                if a.contains(key) {
                    let i = choose|i: int| 0 <= i < a.len() && a[i] == key;
                    assert((a + b)[i] == key);
                }
                if b.contains(key) {
                    let i = choose|i: int| 0 <= i < b.len() && b[i] == key;
                    assert((a + b)[a.len() + i] == key);
                }
                if (a + b).contains(key) {
                    let i = choose|i: int| 0 <= i < (a + b).len() && (a + b)[i] == key;
                    if i < a.len() {
                        assert(a[i] == key);
                    } else {
                        assert(b[i - a.len()] == key);
                    }
                }
            }
        },
        ExprKind::BinaryOp { left, op: BinaryOperator::Eq, right } => {
            law_which_keys_are_picked(e, pk);
            let keys = expr::point_keys(e, pk);
            assert(keys.len() == 1);
            if is_key(*left, pk) && is_literal(*right) {
                assert(keys[0] == meaning::written(*right, m));
                assert(meaning::written(*left, m) == key);
            } else {
                assert(keys[0] == meaning::written(*left, m));
                assert(meaning::written(*right, m) == key);
            }
            assert(keys.contains(key) <==> keys[0] == key);
        },
        ExprKind::InList { expr, list, negated } => {
            lemma_all_listed(list@, list@.len(), m);
            assert(list@.take(list@.len() as int) =~= list@);
            assert(meaning::written(*expr, m) == key);
        },
        _ => {},
    }
}

proof fn lemma_all_listed(list: Seq<Expr>, n: nat, m: Meaning)
    requires
        n <= list.len(),
        forall|i: int| 0 <= i < list.len() ==> is_literal(#[trigger] list[i]),
    ensures
        expr::known_values(list.take(n as int)) == meaning::all_written(list, n, m),
    decreases n,
{
    if n > 0 {
        lemma_all_listed(list, (n - 1) as nat, m);
        assert(list.take(n as int).drop_last() =~= list.take(n - 1));
        assert(list.take(n as int).last() == list[n - 1]);
        assert(is_literal(list[n - 1]));
        assert(meaning::written(list[n - 1], m) == expr::value_of(list[n - 1])->Value_0);
    } else {
        assert(expr::known_values(list.take(0)) =~= meaning::all_written(list, 0, m));
    }
}

} // verus!
