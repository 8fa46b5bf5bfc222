//! Columns behind the name of a table.
//!
//! A statement that changes one table may put the name of the table, or its alias, before any
//! column. That makes no difference. The name of another table there is an error: without it the
//! condition would match nothing, silently.

use vstd::prelude::*;

use super::error::{SqlError, SqlErrorView};
use super::expr;
use super::expr::{BinaryOperator, CollectionInfo, Expr, ExprKind, Valued};
use super::plan::{Delete, Update};
use super::value;
use super::value::{SqlValue, ValueView};
use crate::text;

verus! {

/// An expression over the columns of one table.
#[derive(Debug)]
pub enum Resolved {
    Column(String),
    Value(SqlValue),
    Binary { left: Box<Resolved>, op: BinaryOperator, right: Box<Resolved> },
    InList { expr: Box<Resolved>, list: Vec<Resolved>, negated: bool },
    Other { form: String, operands: Vec<Resolved> },
}

/// An operator, apart from how it is stored.
pub enum OperatorView {
    Eq,
    Or,
    Other(Seq<char>),
}

impl View for BinaryOperator {
    type V = OperatorView;

    open spec fn view(&self) -> OperatorView {
        match self {
            BinaryOperator::Eq => OperatorView::Eq,
            BinaryOperator::Or => OperatorView::Or,
            BinaryOperator::Other(sign) => OperatorView::Other(sign@),
        }
    }
}

/// An expression over the columns of one table, apart from how it is stored.
pub enum ResolvedView {
    Column(Seq<char>),
    Value(ValueView),
    Binary { left: Box<ResolvedView>, op: OperatorView, right: Box<ResolvedView> },
    InList { expr: Box<ResolvedView>, list: Seq<ResolvedView>, negated: bool },
    Other { form: Seq<char>, operands: Seq<ResolvedView> },
}

/// What a resolved expression is.
pub open spec fn resolved_view(r: Resolved) -> ResolvedView
    decreases r, 0nat,
{
    match r {
        Resolved::Column(name) => ResolvedView::Column(name@),
        Resolved::Value(v) => ResolvedView::Value(v@),
        Resolved::Binary { left, op, right } => ResolvedView::Binary {
            left: Box::new(resolved_view(*left)),
            op: op@,
            right: Box::new(resolved_view(*right)),
        },
        Resolved::InList { expr, list, negated } => ResolvedView::InList {
            expr: Box::new(resolved_view(*expr)),
            list: resolved_views(list@, list@.len()),
            negated,
        },
        Resolved::Other { form, operands } => ResolvedView::Other {
            form: form@,
            operands: resolved_views(operands@, operands@.len()),
        },
    }
}

/// What the first `n` of some resolved expressions are.
pub open spec fn resolved_views(list: Seq<Resolved>, n: nat) -> Seq<ResolvedView>
    decreases list, n,
{
    if n == 0 || n > list.len() {
        Seq::empty()
    } else {
        resolved_views(list, (n - 1) as nat).push(resolved_view(list[n - 1]))
    }
}

/// The names of the table that a statement changes.
pub struct TableNames {
    pub name: Seq<char>,
    pub alias: Option<Seq<char>>,
}

impl TableNames {
    pub open spec fn has(self, qualifier: Seq<char>) -> bool {
        qualifier == self.name || self.alias == Some(qualifier)
    }
}

/// An expression over the columns of one table, or why an expression is none.
pub enum Resolution {
    Resolved(ResolvedView),
    Error(SqlErrorView),
}

/// Some expressions over the columns of one table, or why the first that is none is none.
pub enum Resolutions {
    Resolved(Seq<ResolvedView>),
    Error(SqlErrorView),
}

/// The column that a name of several parts stands for.
pub open spec fn resolved_name(e: Expr, parts: Seq<String>, t: TableNames) -> Resolution {
    if parts.len() != 2 {
        Resolution::Error(SqlErrorView::Unsupported { detail: "column reference: "@ + e.text@ })
    } else if t.has(parts[0]@) {
        Resolution::Resolved(ResolvedView::Column(parts[1]@))
    } else {
        Resolution::Error(SqlErrorView::UnknownTable { name: parts[0]@ })
    }
}

/// The value of an expression that has to have one.
pub open spec fn resolved_value(e: Expr) -> Resolution {
    match expr::value_of(e) {
        Valued::Value(v) => Resolution::Resolved(ResolvedView::Value(v)),
        Valued::Error(error) => Resolution::Error(error),
    }
}

/// What an expression of a statement stands for: parentheses and the name of the statement's own
/// table before a column make no difference.
pub open spec fn resolved(e: Expr, t: TableNames) -> Resolution
    decreases e, 0nat,
{
    match e.kind {
        ExprKind::Nested(inner) => resolved(*inner, t),
        ExprKind::Identifier(name) => Resolution::Resolved(ResolvedView::Column(name@)),
        ExprKind::CompoundIdentifier(parts) => resolved_name(e, parts@, t),
        ExprKind::BinaryOp { left, op, right } => match (resolved(*left, t), resolved(*right, t)) {
            (Resolution::Error(error), _) => Resolution::Error(error),
            (_, Resolution::Error(error)) => Resolution::Error(error),
            (Resolution::Resolved(l), Resolution::Resolved(r)) => Resolution::Resolved(
                ResolvedView::Binary { left: Box::new(l), op: op@, right: Box::new(r) },
            ),
        },
        ExprKind::InList { expr, list, negated } => match (
            resolved(*expr, t),
            all_resolved(list@, list@.len(), t),
        ) {
            (Resolution::Error(error), _) => Resolution::Error(error),
            (_, Resolutions::Error(error)) => Resolution::Error(error),
            (Resolution::Resolved(inner), Resolutions::Resolved(items)) => Resolution::Resolved(
                ResolvedView::InList { expr: Box::new(inner), list: items, negated },
            ),
        },
        ExprKind::Other { form, operands } => match expr::value_of(e) {
            Valued::Value(v) => Resolution::Resolved(ResolvedView::Value(v)),
            Valued::Error(_) => match all_resolved(operands@, operands@.len(), t) {
                Resolutions::Error(error) => Resolution::Error(error),
                Resolutions::Resolved(items) => Resolution::Resolved(
                    ResolvedView::Other { form: form@, operands: items },
                ),
            },
        },
        _ => resolved_value(e),
    }
}

/// What the first `n` of some expressions stand for.
pub open spec fn all_resolved(list: Seq<Expr>, n: nat, t: TableNames) -> Resolutions
    decreases list, n,
{
    if n == 0 || n > list.len() {
        Resolutions::Resolved(Seq::empty())
    } else {
        match all_resolved(list, (n - 1) as nat, t) {
            Resolutions::Error(error) => Resolutions::Error(error),
            Resolutions::Resolved(before) => match resolved(list[n - 1], t) {
                Resolution::Error(error) => Resolutions::Error(error),
                Resolution::Resolved(r) => Resolutions::Resolved(before.push(r)),
            },
        }
    }
}

/// The view of a resolved expression or an error.
pub open spec fn resolution(r: Result<Resolved, SqlError>) -> Resolution {
    match r {
        Ok(x) => Resolution::Resolved(resolved_view(x)),
        Err(e) => Resolution::Error(e@),
    }
}

/// The names of a collection and of the alias that a statement gives it.
pub open spec fn table_names(info: CollectionInfo, alias: Option<&str>) -> TableNames {
    TableNames {
        name: info.name@,
        alias: match alias {
            Some(a) => Some(a@),
            None => None,
        },
    }
}

proof fn lemma_first_unresolved(list: Seq<Expr>, t: TableNames, k: nat, n: nat)
    requires
        k <= n <= list.len(),
        all_resolved(list, k, t) is Error,
    ensures
        all_resolved(list, n, t) == all_resolved(list, k, t),
    decreases n,
{
    if k < n {
        lemma_first_unresolved(list, t, k, (n - 1) as nat);
    }
}

proof fn lemma_views_extend(before: Seq<Resolved>, after: Seq<Resolved>, n: nat)
    requires
        n <= before.len() <= after.len(),
        forall|i: int| 0 <= i < before.len() ==> before[i] == after[i],
    ensures
        resolved_views(before, n) == resolved_views(after, n),
    decreases n,
{
    if n > 0 {
        lemma_views_extend(before, after, (n - 1) as nat);
    }
}

fn copy_operator(op: &BinaryOperator) -> (r: BinaryOperator)
    ensures
        r@ == op@,
{
    match op {
        BinaryOperator::Eq => BinaryOperator::Eq,
        BinaryOperator::Or => BinaryOperator::Or,
        BinaryOperator::Other(sign) => BinaryOperator::Other(sign.clone()),
    }
}

fn is_own(qualifier: &str, info: &CollectionInfo, alias: Option<&str>) -> (r: bool)
    ensures
        r == table_names(*info, alias).has(qualifier@),
{
    text::same_text(qualifier, info.name.as_str()) || match alias {
        Some(a) => text::same_text(qualifier, a),
        None => false,
    }
}

fn resolve_all(list: &Vec<Expr>, info: &CollectionInfo, alias: Option<&str>) -> (r: Result<
    Vec<Resolved>,
    SqlError,
>)
    ensures
        match r {
            Ok(items) => all_resolved(list@, list@.len(), table_names(*info, alias))
                == Resolutions::Resolved(resolved_views(items@, items@.len())),
            Err(e) => all_resolved(list@, list@.len(), table_names(*info, alias))
                == Resolutions::Error(e@),
        },
    decreases list,
{
    let ghost t = table_names(*info, alias);
    let mut items: Vec<Resolved> = Vec::new();
    let mut i: usize = 0;
    while i < list.len()
        invariant
            t == table_names(*info, alias),
            i <= list@.len(),
            all_resolved(list@, i as nat, t) == Resolutions::Resolved(
                resolved_views(items@, items@.len()),
            ),
        decreases list@.len() - i,
    {
        assert(decreases_to!(list => list@));
        assert(decreases_to!(list@ => list@[i as int]));
        match resolve(&list[i], info, alias) {
            Ok(x) => {
                let ghost before = items@;
                items.push(x);
                proof {
                    lemma_views_extend(before, items@, before.len());
                    assert(resolved_views(items@, items@.len()) == resolved_views(
                        before,
                        before.len(),
                    ).push(resolved_view(x)));
                }
            },
            Err(e) => {
                proof {
                    lemma_first_unresolved(list@, t, i as nat + 1, list@.len());
                }
                return Err(e);
            },
        }
        i += 1;
    }
    Ok(items)
}

/// What an expression of a statement stands for.
pub fn resolve(e: &Expr, info: &CollectionInfo, alias: Option<&str>) -> (r: Result<
    Resolved,
    SqlError,
>)
    ensures
        resolution(r) == resolved(*e, table_names(*info, alias)),
    decreases *e,
{
    match &e.kind {
        ExprKind::Nested(inner) => resolve(inner, info, alias),
        ExprKind::Identifier(name) => Ok(Resolved::Column(name.clone())),
        ExprKind::CompoundIdentifier(parts) => {
            if parts.len() != 2 {
                return Err(
                    SqlError::Unsupported {
                        detail: "column reference: ".to_owned().concat(e.text.as_str()),
                    },
                );
            }
            if is_own(parts[0].as_str(), info, alias) {
                Ok(Resolved::Column(parts[1].clone()))
            } else {
                Err(SqlError::UnknownTable { name: parts[0].clone() })
            }
        },
        ExprKind::BinaryOp { left, op, right } => {
            let l = match resolve(left, info, alias) {
                Ok(l) => l,
                Err(error) => {
                    return Err(error);
                },
            };
            match resolve(right, info, alias) {
                Ok(r) => Ok(
                    Resolved::Binary {
                        left: Box::new(l),
                        op: copy_operator(op),
                        right: Box::new(r),
                    },
                ),
                Err(error) => Err(error),
            }
        },
        ExprKind::InList { expr: inner, list, negated } => {
            let x = match resolve(inner, info, alias) {
                Ok(x) => x,
                Err(error) => {
                    return Err(error);
                },
            };
            match resolve_all(list, info, alias) {
                Ok(items) => Ok(
                    Resolved::InList { expr: Box::new(x), list: items, negated: *negated },
                ),
                Err(error) => Err(error),
            }
        },
        ExprKind::Other { form, operands } => match expr::expr_to_sql_value(e) {
            Ok(v) => Ok(Resolved::Value(v)),
            Err(_) => match resolve_all(operands, info, alias) {
                Ok(items) => Ok(Resolved::Other { form: form.clone(), operands: items }),
                Err(error) => Err(error),
            },
        },
        _ => match expr::expr_to_sql_value(e) {
            Ok(v) => Ok(Resolved::Value(v)),
            Err(error) => Err(error),
        },
    }
}

/// What the condition of a statement stands for, if it has one.
pub enum Condition {
    Holds(Option<ResolvedView>),
    Error(SqlErrorView),
}

/// What the condition of a statement stands for.
pub open spec fn condition(selection: Option<&Expr>, t: TableNames) -> Condition {
    match selection {
        None => Condition::Holds(None),
        Some(e) => match resolved(*e, t) {
            Resolution::Resolved(r) => Condition::Holds(Some(r)),
            Resolution::Error(error) => Condition::Error(error),
        },
    }
}

/// The view of an optional resolved expression.
pub open spec fn filter_view(filter: Option<Resolved>) -> Option<ResolvedView> {
    match filter {
        Some(r) => Some(resolved_view(r)),
        None => None,
    }
}

/// The keys that the condition of a statement picks out.
pub open spec fn picked_keys(selection: Option<&Expr>, info: CollectionInfo) -> Seq<ValueView> {
    match (info.primary_key, selection) {
        (Some(pk), Some(e)) => expr::point_keys(*e, pk@),
        _ => Seq::empty(),
    }
}

fn resolve_condition(
    selection: Option<&Expr>,
    info: &CollectionInfo,
    alias: Option<&str>,
) -> (r: Result<Option<Resolved>, SqlError>)
    ensures
        match r {
            Ok(filter) => condition(selection, table_names(*info, alias)) == Condition::Holds(
                filter_view(filter),
            ),
            Err(e) => condition(selection, table_names(*info, alias)) == Condition::Error(e@),
        },
{
    match selection {
        None => Ok(None),
        Some(e) => match resolve(e, info, alias) {
            Ok(r) => Ok(Some(r)),
            Err(error) => Err(error),
        },
    }
}

/// Plans a deletion.
pub fn plan_delete(
    info: &CollectionInfo,
    alias: Option<&str>,
    selection: Option<&Expr>,
) -> (r: Result<Delete, SqlError>)
    ensures
        match r {
            Ok(plan) => {
                &&& plan.collection == info.name
                &&& value::value_views(plan.keys@) == picked_keys(selection, *info)
                &&& condition(selection, table_names(*info, alias)) == Condition::Holds(
                    filter_view(plan.filter),
                )
            },
            Err(e) => condition(selection, table_names(*info, alias)) == Condition::Error(e@),
        },
{
    let filter = match resolve_condition(selection, info, alias) {
        Ok(filter) => filter,
        Err(e) => {
            return Err(e);
        },
    };
    Ok(
        Delete {
            collection: info.name.clone(),
            keys: expr::extract_point_keys(selection, info),
            filter,
        },
    )
}

/// What the assignments of an update stand for: the columns, and what each is set to.
pub open spec fn assigned(
    assignments: Seq<(String, Expr)>,
    n: nat,
    t: TableNames,
) -> Result<Seq<(Seq<char>, ResolvedView)>, SqlErrorView>
    decreases n,
{
    if n == 0 || n > assignments.len() {
        Ok(Seq::empty())
    } else {
        match assigned(assignments, (n - 1) as nat, t) {
            Err(error) => Err(error),
            Ok(before) => match resolved(assignments[n - 1].1, t) {
                Resolution::Error(error) => Err(error),
                Resolution::Resolved(r) => Ok(before.push((assignments[n - 1].0@, r))),
            },
        }
    }
}

/// The views of some assignments.
pub open spec fn assignment_views(list: Seq<(String, Resolved)>) -> Seq<
    (Seq<char>, ResolvedView),
> {
    list.map_values(|a: (String, Resolved)| (a.0@, resolved_view(a.1)))
}

proof fn lemma_first_unassigned(
    assignments: Seq<(String, Expr)>,
    t: TableNames,
    k: nat,
    n: nat,
)
    requires
        k <= n <= assignments.len(),
        assigned(assignments, k, t) is Err,
    ensures
        assigned(assignments, n, t) == assigned(assignments, k, t),
    decreases n,
{
    if k < n {
        lemma_first_unassigned(assignments, t, k, (n - 1) as nat);
    }
}

fn resolve_assignments(
    assignments: &[(String, Expr)],
    info: &CollectionInfo,
    alias: Option<&str>,
) -> (r: Result<Vec<(String, Resolved)>, SqlError>)
    ensures
        match r {
            Ok(list) => assigned(assignments@, assignments@.len(), table_names(*info, alias)) == Ok::<
                Seq<(Seq<char>, ResolvedView)>,
                SqlErrorView,
            >(assignment_views(list@)),
            Err(e) => assigned(assignments@, assignments@.len(), table_names(*info, alias)) == Err::<
                Seq<(Seq<char>, ResolvedView)>,
                SqlErrorView,
            >(e@),
        },
{
    let ghost t = table_names(*info, alias);
    let mut list: Vec<(String, Resolved)> = Vec::new();
    let mut i: usize = 0;
    assert(assignment_views(list@) =~= Seq::empty());
    while i < assignments.len()
        invariant
            t == table_names(*info, alias),
            i <= assignments@.len(),
            assigned(assignments@, i as nat, t) == Ok::<
                Seq<(Seq<char>, ResolvedView)>,
                SqlErrorView,
            >(assignment_views(list@)),
        decreases assignments@.len() - i,
    {
        let ghost before = list@;
        match resolve(&assignments[i].1, info, alias) {
            Ok(x) => {
                let column = assignments[i].0.clone();
                list.push((column, x));
                assert(assignment_views(list@) =~= assignment_views(before).push(
                    (column@, resolved_view(x)),
                ));
            },
            Err(e) => {
                proof {
                    lemma_first_unassigned(assignments@, t, i as nat + 1, assignments@.len());
                }
                return Err(e);
            },
        }
        i += 1;
    }
    Ok(list)
}

/// Plans an update.
pub fn plan_update(
    info: &CollectionInfo,
    alias: Option<&str>,
    assignments: &[(String, Expr)],
    selection: Option<&Expr>,
) -> (r: Result<Update, SqlError>)
    ensures
        match r {
            Ok(plan) => {
                &&& plan.collection == info.name
                &&& assigned(assignments@, assignments@.len(), table_names(*info, alias)) == Ok::<
                    Seq<(Seq<char>, ResolvedView)>,
                    SqlErrorView,
                >(assignment_views(plan.assignments@))
                &&& value::value_views(plan.keys@) == picked_keys(selection, *info)
                &&& condition(selection, table_names(*info, alias)) == Condition::Holds(
                    filter_view(plan.filter),
                )
            },
            Err(e) => match assigned(
                assignments@,
                assignments@.len(),
                table_names(*info, alias),
            ) {
                Err(error) => e@ == error,
                Ok(_) => condition(selection, table_names(*info, alias)) == Condition::Error(e@),
            },
        },
{
    let assignments = match resolve_assignments(assignments, info, alias) {
        Ok(list) => list,
        Err(e) => {
            return Err(e);
        },
    };
    let filter = match resolve_condition(selection, info, alias) {
        Ok(filter) => filter,
        Err(e) => {
            return Err(e);
        },
    };
    Ok(
        Update {
            collection: info.name.clone(),
            assignments,
            keys: expr::extract_point_keys(selection, info),
            filter,
        },
    )
}

} // verus!
