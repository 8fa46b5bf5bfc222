//! What expressions mean: the value of an expression on a row, whatever the columns hold and
//! whatever the operators do.

use vstd::prelude::*;

use super::error::{SqlError, SqlErrorView};
use super::expr;
use super::expr::{BinaryOperator, CollectionInfo, Expr, ExprKind, Folded, Valued};
use super::qualified;
use super::qualified::{Condition, Resolution, Resolutions, Resolved, ResolvedView};
use super::value;
use super::value::{SqlValue, ValueView};

verus! {

/// What the columns of a row hold, and what each operator and each other form makes of its operands.
pub struct Meaning {
    pub column: spec_fn(Seq<char>) -> ValueView,
    pub equal: spec_fn(ValueView, ValueView) -> ValueView,
    pub either: spec_fn(ValueView, ValueView) -> ValueView,
    /// An operator by its sign, on its left and its right operand.
    pub operator: spec_fn(Seq<char>, ValueView, ValueView) -> ValueView,
    /// Membership of a value in a list, or the opposite of it.
    pub listed: spec_fn(ValueView, Seq<ValueView>, bool) -> ValueView,
    pub other: spec_fn(Seq<char>, Seq<ValueView>) -> ValueView,
}

/// What an operator makes of its left and its right operand.
pub open spec fn operated(op: BinaryOperator, left: ValueView, right: ValueView, m: Meaning) -> ValueView {
    match op {
        BinaryOperator::Eq => (m.equal)(left, right),
        BinaryOperator::Or => (m.either)(left, right),
        BinaryOperator::Other(sign) => (m.operator)(sign@, left, right),
    }
}

/// The value on a row of an expression as it is written. A name of several parts is the column that
/// its last part names.
pub open spec fn written(e: Expr, m: Meaning) -> ValueView
    decreases e, 0nat,
{
    match e.kind {
        ExprKind::Nested(inner) => written(*inner, m),
        ExprKind::Identifier(name) => (m.column)(name@),
        ExprKind::CompoundIdentifier(parts) => (m.column)(parts@[parts@.len() - 1]@),
        ExprKind::BinaryOp { left, op, right } => operated(
            op,
            written(*left, m),
            written(*right, m),
            m,
        ),
        ExprKind::InList { expr, list, negated } => (m.listed)(
            written(*expr, m),
            all_written(list@, list@.len(), m),
            negated,
        ),
        ExprKind::Other { form, operands } => match e.folded {
            Folded::Value(v) => v@,
            _ => (m.other)(form@, all_written(operands@, operands@.len(), m)),
        },
        _ => expr::value_of(e)->Value_0,
    }
}

/// The values on a row of the first `n` of some expressions.
pub open spec fn all_written(list: Seq<Expr>, n: nat, m: Meaning) -> Seq<ValueView>
    decreases list, n,
{
    if n == 0 || n > list.len() {
        Seq::empty()
    } else {
        all_written(list, (n - 1) as nat, m).push(written(list[n - 1], m))
    }
}

/// The value on a row of an expression of a plan.
pub open spec fn evaluated(r: Resolved, m: Meaning) -> ValueView
    decreases r, 0nat,
{
    match r {
        Resolved::Column(name) => (m.column)(name@),
        Resolved::Value(v) => v@,
        Resolved::Binary { left, op, right } => operated(
            op,
            evaluated(*left, m),
            evaluated(*right, m),
            m,
        ),
        Resolved::InList { expr, list, negated } => (m.listed)(
            evaluated(*expr, m),
            all_evaluated(list@, list@.len(), m),
            negated,
        ),
        Resolved::Other { form, operands } => (m.other)(
            form@,
            all_evaluated(operands@, operands@.len(), m),
        ),
    }
}

/// The values on a row of the first `n` of some expressions of a plan.
pub open spec fn all_evaluated(list: Seq<Resolved>, n: nat, m: Meaning) -> Seq<ValueView>
    decreases list, n,
{
    if n == 0 || n > list.len() {
        Seq::empty()
    } else {
        all_evaluated(list, (n - 1) as nat, m).push(evaluated(list[n - 1], m))
    }
}

/// Whether an expression can stand in a statement on `info`: each column is written alone or behind
/// the collection's own name or alias, and what is no column, operator or list has a value.
pub open spec fn stands(e: Expr, info: CollectionInfo, alias: Option<&str>) -> bool
    decreases e, 0nat,
{
    match e.kind {
        ExprKind::Nested(inner) => stands(*inner, info, alias),
        ExprKind::Identifier(_) => true,
        ExprKind::CompoundIdentifier(parts) => parts@.len() == 2 && (parts@[0]@ == info.name@
            || (alias is Some && parts@[0]@ == alias->0@)),
        ExprKind::BinaryOp { left, op, right } => stands(*left, info, alias) && stands(
            *right,
            info,
            alias,
        ),
        ExprKind::InList { expr, list, negated } => stands(*expr, info, alias) && all_stand(
            list@,
            list@.len(),
            info,
            alias,
        ),
        ExprKind::Other { form, operands } => e.folded is Value || all_stand(
            operands@,
            operands@.len(),
            info,
            alias,
        ),
        _ => expr::value_of(e) is Value,
    }
}

/// Whether each of the first `n` of some expressions can stand in a statement on `info`.
pub open spec fn all_stand(
    list: Seq<Expr>,
    n: nat,
    info: CollectionInfo,
    alias: Option<&str>,
) -> bool
    decreases list, n,
{
    if n == 0 || n > list.len() {
        true
    } else {
        all_stand(list, (n - 1) as nat, info, alias) && stands(list[n - 1], info, alias)
    }
}

/// Resolving an expression changes nothing about what it means: on every row, under every meaning of
/// the operators, the resolved expression has the value of the written one.
pub proof fn law_resolving_keeps_the_meaning(
    e: Expr,
    info: CollectionInfo,
    alias: Option<&str>,
    r: Resolved,
    m: Meaning,
)
    requires
        qualified::resolution(Ok::<Resolved, SqlError>(r)) == qualified::resolved(
            e,
            qualified::table_names(info, alias),
        ),
    ensures
        evaluated(r, m) == written(e, m),
    decreases e, 0nat,
{
    let t = qualified::table_names(info, alias);
    match e.kind {
        ExprKind::Nested(inner) => {
            law_resolving_keeps_the_meaning(*inner, info, alias, r, m);
        },
        ExprKind::BinaryOp { left, op, right } => {
            match r {
                Resolved::Binary { left: l, op: kept, right: k } => {
                    law_resolving_keeps_the_meaning(*left, info, alias, *l, m);
                    law_resolving_keeps_the_meaning(*right, info, alias, *k, m);
                },
                _ => {},
            }
        },
        ExprKind::InList { expr, list, negated } => {
            match r {
                Resolved::InList { expr: x, list: items, negated: kept } => {
                    law_resolving_keeps_the_meaning(*expr, info, alias, *x, m);
                    lemma_views_len(items@, items@.len());
                    lemma_resolved_len(list@, list@.len(), t);
                    lemma_all_keep_the_meaning(list@, info, alias, items@, list@.len(), m);
                },
                _ => {},
            }
        },
        ExprKind::Other { form, operands } => {
            match r {
                Resolved::Other { form: kept, operands: items } => {
                    lemma_views_len(items@, items@.len());
                    lemma_resolved_len(operands@, operands@.len(), t);
                    lemma_all_keep_the_meaning(operands@, info, alias, items@, operands@.len(), m);
                },
                _ => {},
            }
        },
        _ => {},
    }
}

proof fn lemma_views_len(list: Seq<Resolved>, n: nat)
    requires
        n <= list.len(),
    ensures
        qualified::resolved_views(list, n).len() == n,
    decreases n,
{
    if n > 0 {
        lemma_views_len(list, (n - 1) as nat);
    }
}

proof fn lemma_resolved_len(list: Seq<Expr>, n: nat, t: qualified::TableNames)
    requires
        n <= list.len(),
    ensures
        qualified::all_resolved(list, n, t) matches Resolutions::Resolved(all) ==> all.len() == n,
    decreases n,
{
    if n > 0 {
        lemma_resolved_len(list, (n - 1) as nat, t);
    }
}

proof fn lemma_all_keep_the_meaning(
    list: Seq<Expr>,
    info: CollectionInfo,
    alias: Option<&str>,
    items: Seq<Resolved>,
    n: nat,
    m: Meaning,
)
    requires
        n <= list.len() == items.len(),
        qualified::all_resolved(list, n, qualified::table_names(info, alias))
            == Resolutions::Resolved(qualified::resolved_views(items, n)),
    ensures
        all_evaluated(items, n, m) == all_written(list, n, m),
    decreases list, n,
{
    let t = qualified::table_names(info, alias);
    if n > 0 {
        let before = qualified::resolved_views(items, (n - 1) as nat);
        let views = qualified::resolved_views(items, n);
        assert(views == before.push(qualified::resolved_view(items[n - 1])));
        let list_before = qualified::all_resolved(list, (n - 1) as nat, t)->Resolved_0;
        let last = qualified::resolved(list[n - 1], t)->Resolved_0;
        assert(views == list_before.push(last));
        assert(views.drop_last() =~= before);
        assert(views.drop_last() =~= list_before);
        assert(views.last() == last);
        lemma_all_keep_the_meaning(list, info, alias, items, (n - 1) as nat, m);
        law_resolving_keeps_the_meaning(list[n - 1], info, alias, items[n - 1], m);
    }
}

/// An expression is resolved exactly if it can stand in a statement on the collection.
pub proof fn law_what_can_be_resolved(e: Expr, info: CollectionInfo, alias: Option<&str>)
    ensures
        qualified::resolved(e, qualified::table_names(info, alias)) is Resolved <==> stands(
            e,
            info,
            alias,
        ),
    decreases e, 0nat,
{
    match e.kind {
        ExprKind::Nested(inner) => {
            law_what_can_be_resolved(*inner, info, alias);
        },
        ExprKind::BinaryOp { left, op, right } => {
            law_what_can_be_resolved(*left, info, alias);
            law_what_can_be_resolved(*right, info, alias);
        },
        ExprKind::InList { expr, list, negated } => {
            law_what_can_be_resolved(*expr, info, alias);
            lemma_all_can_be_resolved(list@, list@.len(), info, alias);
        },
        ExprKind::Other { form, operands } => {
            lemma_all_can_be_resolved(operands@, operands@.len(), info, alias);
        },
        _ => {},
    }
}

proof fn lemma_all_can_be_resolved(
    list: Seq<Expr>,
    n: nat,
    info: CollectionInfo,
    alias: Option<&str>,
)
    ensures
        qualified::all_resolved(list, n, qualified::table_names(info, alias)) is Resolved
            <==> all_stand(list, n, info, alias),
    decreases list, n,
{
    if 0 < n <= list.len() {
        lemma_all_can_be_resolved(list, (n - 1) as nat, info, alias);
        law_what_can_be_resolved(list[n - 1], info, alias);
    }
}

/// Why an expression cannot be resolved: a column behind the name of another table is an unknown
/// table, a name of any other number of parts is not supported, an operator has the fault of its left
/// operand before that of its right one, a list has that of what it is searched for first, and what
/// has to be a value has its own.
pub proof fn law_why_an_expression_is_refused(e: Expr, info: CollectionInfo, alias: Option<&str>)
    requires
        !stands(e, info, alias),
    ensures
        ({
            let t = qualified::table_names(info, alias);
            match e.kind {
                ExprKind::Nested(inner) => qualified::resolved(e, t) == qualified::resolved(
                    *inner,
                    t,
                ),
                ExprKind::Identifier(_) => false,
                ExprKind::CompoundIdentifier(parts) => if parts@.len() == 2 {
                    qualified::resolved(e, t) == Resolution::Error(
                        SqlErrorView::UnknownTable { name: parts@[0]@ },
                    )
                } else {
                    qualified::resolved(e, t) == Resolution::Error(
                        SqlErrorView::Unsupported { detail: "column reference: "@ + e.text@ },
                    )
                },
                ExprKind::BinaryOp { left, op, right } => qualified::resolved(e, t)
                    == qualified::resolved(
                    if stands(*left, info, alias) {
                        *right
                    } else {
                        *left
                    },
                    t,
                ),
                ExprKind::InList { expr, list, negated } => !stands(*expr, info, alias)
                    ==> qualified::resolved(e, t) == qualified::resolved(*expr, t),
                ExprKind::Other { .. } => true,
                _ => expr::value_of(e) matches Valued::Error(error) && qualified::resolved(e, t)
                    == Resolution::Error(error),
            }
        }),
        forall|list: Seq<Expr>, i: int|
            first_of_the_operands(e, list, info, alias) && 0 <= i < list.len() && !stands(
                #[trigger] list[i],
                info,
                alias,
            ) && (forall|j: int| 0 <= j < i ==> stands(#[trigger] list[j], info, alias))
                ==> qualified::resolved(e, qualified::table_names(info, alias))
                == qualified::resolved(list[i], qualified::table_names(info, alias)),
{
    let t = qualified::table_names(info, alias);
    law_what_can_be_resolved(e, info, alias);
    match e.kind {
        ExprKind::BinaryOp { left, op, right } => {
            law_what_can_be_resolved(*left, info, alias);
            law_what_can_be_resolved(*right, info, alias);
        },
        ExprKind::InList { expr, list, negated } => {
            law_what_can_be_resolved(*expr, info, alias);
        },
        _ => {},
    }
    assert forall|list: Seq<Expr>, i: int|
        first_of_the_operands(e, list, info, alias) && 0 <= i < list.len() && !stands(
            #[trigger] list[i],
            info,
            alias,
        ) && (forall|j: int| 0 <= j < i ==> stands(#[trigger] list[j], info, alias)) implies
        qualified::resolved(e, t) == qualified::resolved(list[i], t) by {
        lemma_first_fault_of_a_list(list, i, list.len(), info, alias);
    }
}

/// Whether `list` are operands of `e` that decide, the first that cannot stand first: those of a form
/// that has no value of its own, or the elements of a list that something is searched in.
pub open spec fn first_of_the_operands(
    e: Expr,
    list: Seq<Expr>,
    info: CollectionInfo,
    alias: Option<&str>,
) -> bool {
    match e.kind {
        ExprKind::InList { expr, list: items, negated } => items@ == list && stands(
            *expr,
            info,
            alias,
        ),
        ExprKind::Other { form, operands } => operands@ == list && !(e.folded is Value),
        _ => false,
    }
}

proof fn lemma_first_fault_of_a_list(
    list: Seq<Expr>,
    i: int,
    n: nat,
    info: CollectionInfo,
    alias: Option<&str>,
)
    requires
        0 <= i < list.len(),
        n <= list.len(),
        !stands(list[i], info, alias),
        forall|j: int| 0 <= j < i ==> stands(#[trigger] list[j], info, alias),
    ensures
        n <= i ==> qualified::all_resolved(list, n, qualified::table_names(info, alias)) is Resolved,
        i < n ==> qualified::all_resolved(list, n, qualified::table_names(info, alias))
            == Resolutions::Error(
            qualified::resolved(list[i], qualified::table_names(info, alias))->Error_0,
        ) && qualified::resolved(list[i], qualified::table_names(info, alias)) is Error,
    decreases n,
{
    if n > 0 {
        lemma_first_fault_of_a_list(list, i, (n - 1) as nat, info, alias);
        law_what_can_be_resolved(list[n - 1], info, alias);
        law_what_can_be_resolved(list[i], info, alias);
    }
}

/// Whether a filter of a plan takes the rows that the condition of the statement takes: on every row
/// it has the value of the condition, and there is none without a condition.
pub open spec fn filters_as_written(selection: Option<&Expr>, filter: Option<Resolved>) -> bool {
    match (selection, filter) {
        (None, None) => true,
        (Some(e), Some(r)) => forall|m: Meaning| #[trigger] evaluated(r, m) == written(*e, m),
        _ => false,
    }
}

/// Whether a condition can stand in a statement on `info`.
pub open spec fn condition_stands(
    selection: Option<&Expr>,
    info: CollectionInfo,
    alias: Option<&str>,
) -> bool {
    selection is Some ==> stands(*selection->0, info, alias)
}

/// A plan takes the rows that the condition of its statement takes, and there is a plan exactly if
/// the condition can stand in the statement.
pub proof fn law_plans_filter_as_written(
    selection: Option<&Expr>,
    info: CollectionInfo,
    alias: Option<&str>,
    filter: Option<Resolved>,
)
    ensures
        qualified::condition(selection, qualified::table_names(info, alias)) is Holds
            <==> condition_stands(selection, info, alias),
        qualified::condition(selection, qualified::table_names(info, alias)) == Condition::Holds(
            qualified::filter_view(filter),
        ) ==> filters_as_written(selection, filter),
{
    if selection is Some {
        law_what_can_be_resolved(*selection->0, info, alias);
        if qualified::condition(selection, qualified::table_names(info, alias)) == Condition::Holds(
            qualified::filter_view(filter),
        ) {
            assert forall|m: Meaning| #[trigger] evaluated(filter->0, m) == written(
                *selection->0,
                m,
            ) by {
                law_resolving_keeps_the_meaning(*selection->0, info, alias, filter->0, m);
            }
        }
    }
}

/// Whether `list` sets what `assignments` say: the same columns in the same order, each to what has,
/// on every row, the value of what is written.
pub open spec fn sets_as_written(
    assignments: Seq<(String, Expr)>,
    list: Seq<(String, Resolved)>,
) -> bool {
    &&& list.len() == assignments.len()
    &&& forall|i: int|
        0 <= i < list.len() ==> (#[trigger] list[i]).0@ == assignments[i].0@
    &&& forall|i: int, m: Meaning|
        0 <= i < list.len() ==> #[trigger] evaluated(list[i].1, m) == written(assignments[i].1, m)
}

/// Whether what each of `assignments` sets a column to can stand in a statement on `info`.
pub open spec fn assignments_stand(
    assignments: Seq<(String, Expr)>,
    info: CollectionInfo,
    alias: Option<&str>,
) -> bool {
    forall|i: int| 0 <= i < assignments.len() ==> stands((#[trigger] assignments[i]).1, info, alias)
}

proof fn lemma_assigned(
    assignments: Seq<(String, Expr)>,
    n: nat,
    info: CollectionInfo,
    alias: Option<&str>,
)
    requires
        n <= assignments.len(),
    ensures
        match qualified::assigned(assignments, n, qualified::table_names(info, alias)) {
            Ok(all) => all.len() == n && forall|i: int|
                0 <= i < n ==> all[i].0 == (#[trigger] assignments[i]).0@ && stands(
                    assignments[i].1,
                    info,
                    alias,
                ) && qualified::resolved(assignments[i].1, qualified::table_names(info, alias))
                    == Resolution::Resolved(all[i].1),
            Err(error) => exists|i: int|
                0 <= i < n && !stands((#[trigger] assignments[i]).1, info, alias)
                    && qualified::resolved(assignments[i].1, qualified::table_names(info, alias))
                    == Resolution::Error(error) && forall|j: int|
                    0 <= j < i ==> stands((#[trigger] assignments[j]).1, info, alias),
        },
    decreases n,
{
    if n > 0 {
        lemma_assigned(assignments, (n - 1) as nat, info, alias);
        law_what_can_be_resolved(assignments[n - 1].1, info, alias);
    }
}

/// An update sets what it is written to set, and its assignments can be planned exactly if each can
/// stand in the statement.
pub proof fn law_updates_set_as_written(
    assignments: Seq<(String, Expr)>,
    info: CollectionInfo,
    alias: Option<&str>,
    list: Vec<(String, Resolved)>,
)
    ensures
        qualified::assigned(
            assignments,
            assignments.len(),
            qualified::table_names(info, alias),
        ) is Ok <==> assignments_stand(assignments, info, alias),
        qualified::assigned(assignments, assignments.len(), qualified::table_names(info, alias))
            == Ok::<Seq<(Seq<char>, ResolvedView)>, SqlErrorView>(
            qualified::assignment_views(list@),
        ) ==> sets_as_written(assignments, list@),
{
    let t = qualified::table_names(info, alias);
    lemma_assigned(assignments, assignments.len(), info, alias);
    let views = qualified::assignment_views(list@);
    if qualified::assigned(assignments, assignments.len(), t) == Ok::<
        Seq<(Seq<char>, ResolvedView)>,
        SqlErrorView,
    >(views) {
        assert forall|i: int| 0 <= i < list@.len() implies (#[trigger] list@[i]).0@
            == assignments[i].0@ by {
            assert(views[i].0 == list@[i].0@);
        }
        assert forall|i: int, m: Meaning| 0 <= i < list@.len() implies #[trigger] evaluated(
            list@[i].1,
            m,
        ) == written(assignments[i].1, m) by {
            assert(views[i].1 == qualified::resolved_view(list@[i].1));
            assert(assignments[i].0@ == views[i].0);
            law_resolving_keeps_the_meaning(assignments[i].1, info, alias, list@[i].1, m);
        }
    }
}

/// Assignments are refused for the first that cannot stand in the statement.
pub proof fn law_which_assignment_is_refused(
    assignments: Seq<(String, Expr)>,
    info: CollectionInfo,
    alias: Option<&str>,
    i: int,
)
    requires
        0 <= i < assignments.len(),
        !stands(assignments[i].1, info, alias),
        forall|j: int| 0 <= j < i ==> stands((#[trigger] assignments[j]).1, info, alias),
    ensures
        qualified::assigned(
            assignments,
            assignments.len(),
            qualified::table_names(info, alias),
        ) matches Err(error) && qualified::resolved(
            assignments[i].1,
            qualified::table_names(info, alias),
        ) == Resolution::Error(error),
{
    lemma_assigned(assignments, assignments.len(), info, alias);
    match qualified::assigned(
        assignments,
        assignments.len(),
        qualified::table_names(info, alias),
    ) {
        Err(error) => {
            let k = choose|k: int|
                0 <= k < assignments.len() && !stands((#[trigger] assignments[k]).1, info, alias)
                    && qualified::resolved(assignments[k].1, qualified::table_names(info, alias))
                    == Resolution::Error(error) && forall|j: int|
                    0 <= j < k ==> stands((#[trigger] assignments[j]).1, info, alias);
            assert(k == i);
        },
        Ok(all) => {
            assert(stands(assignments[i].1, info, alias));
        },
    }
}

/// Resolving keeps every part of an expression in its place: the operands of an operator on their
/// sides, what is searched for and the elements of the list that it is searched in, the operands of any
/// other form in their order, and a column by the last part of its name.
pub proof fn law_resolving_keeps_parts_in_place(
    e: Expr,
    info: CollectionInfo,
    alias: Option<&str>,
    r: Resolved,
)
    requires
        qualified::resolution(Ok::<Resolved, SqlError>(r)) == qualified::resolved(
            e,
            qualified::table_names(info, alias),
        ),
    ensures
        ({
            let t = qualified::table_names(info, alias);
            match e.kind {
                ExprKind::Nested(inner) => qualified::resolved(*inner, t) == Resolution::Resolved(
                    qualified::resolved_view(r),
                ),
                ExprKind::Identifier(name) => r matches Resolved::Column(column) && column@
                    == name@,
                ExprKind::CompoundIdentifier(parts) => r matches Resolved::Column(column)
                    && parts@.len() == 2 && column@ == parts@[1]@,
                ExprKind::BinaryOp { left, op, right } => {
                    &&& r matches Resolved::Binary { left: l, op: kept, right: k }
                    &&& qualified::resolved(*left, t) == Resolution::Resolved(
                        qualified::resolved_view(*l),
                    )
                    &&& qualified::resolved(*right, t) == Resolution::Resolved(
                        qualified::resolved_view(*k),
                    )
                    &&& op is Eq <==> kept is Eq
                    &&& op is Or <==> kept is Or
                    &&& op is Other ==> kept is Other && kept->Other_0@ == op->Other_0@
                },
                ExprKind::InList { expr, list, negated } => {
                    &&& r matches Resolved::InList { expr: x, list: items, negated: kept }
                    &&& kept == negated
                    &&& qualified::resolved(*expr, t) == Resolution::Resolved(
                        qualified::resolved_view(*x),
                    )
                    &&& items@.len() == list@.len()
                    &&& forall|i: int|
                        0 <= i < list@.len() ==> qualified::resolved(#[trigger] list@[i], t)
                            == Resolution::Resolved(qualified::resolved_view(items@[i]))
                },
                ExprKind::Other { form, operands } => if e.folded is Value {
                    r matches Resolved::Value(v) && v@ == e.folded->Value_0@
                } else {
                    &&& r matches Resolved::Other { form: kept, operands: items }
                    &&& kept@ == form@
                    &&& items@.len() == operands@.len()
                    &&& forall|i: int|
                        0 <= i < operands@.len() ==> qualified::resolved(#[trigger] operands@[i], t)
                            == Resolution::Resolved(qualified::resolved_view(items@[i]))
                },
                _ => r matches Resolved::Value(v) && expr::value_of(e) == Valued::Value(v@),
            }
        }),
{
    let t = qualified::table_names(info, alias);
    match (e.kind, r) {
        (ExprKind::InList { expr, list, negated }, Resolved::InList { expr: x, list: items, .. }) => {
            lemma_views_len(items@, items@.len());
            lemma_resolved_len(list@, list@.len(), t);
            lemma_each_in_place(list@, items@, list@.len(), t);
        },
        (ExprKind::Other { form, operands }, Resolved::Other { form: kept, operands: items }) => {
            lemma_views_len(items@, items@.len());
            lemma_resolved_len(operands@, operands@.len(), t);
            lemma_each_in_place(operands@, items@, operands@.len(), t);
        },
        _ => {},
    }
}

proof fn lemma_each_in_place(
    list: Seq<Expr>,
    items: Seq<Resolved>,
    n: nat,
    t: qualified::TableNames,
)
    requires
        n <= list.len() == items.len(),
        qualified::all_resolved(list, n, t) == Resolutions::Resolved(
            qualified::resolved_views(items, n),
        ),
    ensures
        forall|i: int|
            0 <= i < n ==> qualified::resolved(#[trigger] list[i], t) == Resolution::Resolved(
                qualified::resolved_view(items[i]),
            ),
    decreases n,
{
    if n > 0 {
        let before = qualified::resolved_views(items, (n - 1) as nat);
        let views = qualified::resolved_views(items, n);
        let list_before = qualified::all_resolved(list, (n - 1) as nat, t)->Resolved_0;
        let last = qualified::resolved(list[n - 1], t)->Resolved_0;
        assert(views == before.push(qualified::resolved_view(items[n - 1])));
        assert(views == list_before.push(last));
        assert(views.drop_last() =~= before);
        assert(views.drop_last() =~= list_before);
        assert(views.last() == last);
        lemma_each_in_place(list, items, (n - 1) as nat, t);
    }
}

/// The keys of a plan are those that the condition of its statement picks out by the primary key, in
/// their order; without a condition or a primary key there are none.
pub proof fn law_plans_hold_the_picked_keys(
    selection: Option<&Expr>,
    info: CollectionInfo,
    keys: Vec<SqlValue>,
)
    requires
        value::value_views(keys@) == qualified::picked_keys(selection, info),
    ensures
        selection is None || info.primary_key is None ==> keys@.len() == 0,
        selection is Some && info.primary_key is Some ==> {
            let picked = expr::point_keys(*selection->0, info.primary_key->0@);
            &&& keys@.len() == picked.len()
            &&& forall|i: int| 0 <= i < keys@.len() ==> (#[trigger] keys@[i])@ == picked[i]
        },
{
    let views = value::value_views(keys@);
    assert(views.len() == keys@.len());
    assert forall|i: int| 0 <= i < keys@.len() implies (#[trigger] keys@[i])@ == views[i] by {}
}

} // verus!
