//! Running a statement and answering with all its rows at once.
//!
//! [`query`] takes a request through authentication, the choice of a database, the data definition
//! commands, the quota and the planner, and then runs the tasks of the plan one after the other.
//! Each is done by others: a [`QueryStep`] says what is to be done next, and what came of it goes
//! into the function that the step names.

use vstd::prelude::*;

use super::auth::{ApiError, ApiErrorView, AuthContext};
use super::dispatch;
use super::dispatch::{Authenticated, DatabaseChoice, DdlError, GatewayError, Selected, TaskRoute};
use crate::error::Error;
use crate::identity::{AuthenticatedIdentity, DatabaseId};
use crate::lists;
use crate::plan::physical::PhysicalPlan;
use crate::text;

verus! {

/// What a payload comes to.
pub enum ShapedPayload<R> {
    /// There is nothing in it.
    Empty,
    Rows(Vec<R>),
    /// It is one row as it stands.
    Passthrough(R),
    /// It could not be shaped, and why.
    Failed(String),
}

/// What came of a task.
pub enum TaskOutcome<R> {
    /// It could not be run.
    Failed(GatewayError),
    /// The gateway ran it and gave back payloads.
    Payloads(Vec<ShapedPayload<R>>),
    /// An orchestrator or the node itself ran it and gave back a response, with an error code where
    /// it is no success.
    Response { ok: bool, error_code: Option<String>, payload: ShapedPayload<R> },
}

/// The tasks of a statement, some of which have been run.
pub struct Running<R> {
    pub request: Selected,
    pub plans: Vec<PhysicalPlan>,
    pub next: usize,
    pub rows: Vec<R>,
}

/// What is to be done next for a request.
pub enum QueryStep<R> {
    /// Answer with these rows, or this error.
    Respond(Result<Vec<R>, ApiError>),
    /// Look up the database that the request asks for, then call [`database_resolved`].
    ResolveDatabase(Authenticated, DatabaseChoice),
    /// Check that the identity may use the database, then call [`database_authorized`].
    AuthorizeDatabase(Selected),
    /// Try this text as a data definition command, then call [`ddl_dispatched`].
    DispatchDdl(Selected, String),
    /// Check the quota of the tenant, then call [`quota_checked`].
    CheckQuota(Selected),
    /// Plan the statement, then call [`statement_planned`].
    PlanStatement(Selected),
    /// Run the next task by this route, then call [`task_ran`].
    RunTask(Running<R>, TaskRoute),
}

/// The answer to a request.
pub enum Reply<R> {
    Rows(Seq<R>),
    Error(ApiErrorView),
}

/// The view of an answer.
pub open spec fn reply_view<R>(r: Result<Vec<R>, ApiError>) -> Reply<R> {
    match r {
        Ok(rows) => Reply::Rows(rows@),
        Err(e) => Reply::Error(e@),
    }
}

/// The rows so far with those of a payload, or why it could not be shaped.
pub open spec fn with_payload<R>(rows: Seq<R>, payload: ShapedPayload<R>) -> Reply<R> {
    match payload {
        ShapedPayload::Empty => Reply::Rows(rows),
        ShapedPayload::Rows(more) => Reply::Rows(rows + more@),
        ShapedPayload::Passthrough(row) => Reply::Rows(rows.push(row)),
        ShapedPayload::Failed(message) => Reply::Error(ApiErrorView::Internal(message@)),
    }
}

/// The rows so far with those of some payloads, or why the first that fails could not be shaped.
pub open spec fn with_payloads<R>(rows: Seq<R>, payloads: Seq<ShapedPayload<R>>) -> Reply<R>
    decreases payloads.len(),
{
    if payloads.len() == 0 {
        Reply::Rows(rows)
    } else {
        match with_payloads(rows, payloads.drop_last()) {
            Reply::Error(e) => Reply::Error(e),
            Reply::Rows(before) => with_payload(before, payloads.last()),
        }
    }
}

/// The rows so far with those of a task, or why it failed.
pub open spec fn with_outcome<R>(rows: Seq<R>, outcome: TaskOutcome<R>) -> Reply<R> {
    match outcome {
        TaskOutcome::Failed(error) => Reply::Error(
            ApiErrorView::HttpStatus(error.status, error.message@),
        ),
        TaskOutcome::Payloads(payloads) => with_payloads(rows, payloads@),
        TaskOutcome::Response { ok, error_code, payload } => if !ok {
            Reply::Error(dispatch::failed_response(error_code))
        } else {
            with_payload(rows, payload)
        },
    }
}

/// The rows so far with those of some tasks, in their order, or why the first that fails did.
pub open spec fn rows_after<R>(rows: Seq<R>, outcomes: Seq<TaskOutcome<R>>) -> Reply<R>
    decreases outcomes.len(),
{
    if outcomes.len() == 0 {
        Reply::Rows(rows)
    } else {
        match with_outcome(rows, outcomes.first()) {
            Reply::Error(e) => Reply::Error(e),
            Reply::Rows(more) => rows_after(more, outcomes.drop_first()),
        }
    }
}

/// What comes of everything that is done for a request, should it be done.
pub struct QueryAnswers<R> {
    pub database: Result<DatabaseId, ApiError>,
    pub authorized: Result<(), Error>,
    pub ddl: Option<Result<Vec<R>, DdlError>>,
    pub quota: Result<(), Error>,
    pub plans: Result<Vec<PhysicalPlan>, Error>,
    /// One outcome for each plan.
    pub outcomes: Seq<TaskOutcome<R>>,
}

/// The answer to a request whose statement is to be planned.
pub open spec fn planned<R>(a: QueryAnswers<R>) -> Reply<R> {
    match a.plans {
        Err(e) => Reply::Error(reported(e)),
        Ok(plans) => rows_after(Seq::empty(), a.outcomes.take(plans@.len() as int)),
    }
}

/// The answer to a request whose quota is to be checked.
pub open spec fn within_quota<R>(a: QueryAnswers<R>) -> Reply<R> {
    match a.quota {
        Err(e) => Reply::Error(
            ApiErrorView::RateLimited { message: e.text@, retry_after_secs: 1 },
        ),
        Ok(()) => planned(a),
    }
}

/// The answer to a request that may be a data definition command.
pub open spec fn ddl_or_query<R>(a: QueryAnswers<R>) -> Reply<R> {
    match a.ddl {
        Some(Ok(rows)) => Reply::Rows(rows@),
        Some(Err(e)) => Reply::Error(dispatch::ddl_error(e)),
        None => within_quota(a),
    }
}

/// The answer to a request whose database is to be authorized.
pub open spec fn authorized<R>(a: QueryAnswers<R>) -> Reply<R> {
    match a.authorized {
        Err(e) => Reply::Error(reported(e)),
        Ok(()) => ddl_or_query(a),
    }
}

/// The answer to a request of which it is known who it comes from.
pub open spec fn in_database<R>(a: QueryAnswers<R>) -> Reply<R> {
    match a.database {
        Err(e) => Reply::Error(e@),
        Ok(_) => authorized(a),
    }
}

/// The answer to a request, from its beginning.
pub open spec fn answer<R>(
    auth: Result<(AuthenticatedIdentity, AuthContext), ApiError>,
    a: QueryAnswers<R>,
) -> Reply<R> {
    match auth {
        Err(e) => Reply::Error(e@),
        Ok(_) => in_database(a),
    }
}

/// How an error of the server is reported.
pub open spec fn reported(e: Error) -> ApiErrorView {
    <ApiError as vstd::std_specs::convert::FromSpec<Error>>::from_spec(e)@
}

/// The answer to a request that has come as far as `step`.
pub open spec fn query_settled<R>(step: QueryStep<R>, a: QueryAnswers<R>) -> Reply<R> {
    match step {
        QueryStep::Respond(r) => reply_view(r),
        QueryStep::ResolveDatabase(_, _) => in_database(a),
        QueryStep::AuthorizeDatabase(_) => authorized(a),
        QueryStep::DispatchDdl(_, _) => ddl_or_query(a),
        QueryStep::CheckQuota(_) => within_quota(a),
        QueryStep::PlanStatement(_) => planned(a),
        QueryStep::RunTask(run, _) => rows_after(
            run.rows@,
            a.outcomes.subrange(run.next as int, run.plans@.len() as int),
        ),
    }
}

/// Whether there is a next task, and `route` is its route.
pub open spec fn runnable<R>(run: Running<R>, route: TaskRoute, gateway: bool) -> bool {
    run.next < run.plans@.len() && route == dispatch::route_of(
        run.plans@[run.next as int],
        gateway,
    )
}

/// Begins to answer a request, given who it comes from, or why that cannot be said. The
/// database is the one that the `X-NodeDB-Database` header names or, without that header, the
/// `database` parameter.
pub fn query<R>(
    auth: Result<(AuthenticatedIdentity, AuthContext), ApiError>,
    headers: &axum::http::HeaderMap<axum::http::HeaderValue>,
    database: Option<String>,
    sql: String,
) -> (r: QueryStep<R>)
    ensures
        forall|a: QueryAnswers<R>| #[trigger] query_settled(r, a) == answer(auth, a),
        auth matches Ok(known) ==> {
            &&& r matches QueryStep::ResolveDatabase(request, choice)
            &&& request == (Authenticated { identity: known.0, auth_ctx: known.1, sql })
            &&& choice@ == dispatch::chosen_database(*headers, database)
        },
{
    match auth {
        Err(e) => QueryStep::Respond(Err(e)),
        Ok((identity, auth_ctx)) => {
            let choice = dispatch::choose_database(headers, database);
            QueryStep::ResolveDatabase(Authenticated { identity, auth_ctx, sql }, choice)
        },
    }
}

/// Goes on, given the database that the request is for.
pub fn database_resolved<R>(
    request: Authenticated,
    database: Result<DatabaseId, ApiError>,
) -> (r: QueryStep<R>)
    ensures
        forall|a: QueryAnswers<R>|
            a.database == database ==> #[trigger] query_settled(r, a) == in_database(a),
        database matches Ok(database_id) ==> r == QueryStep::<R>::AuthorizeDatabase(
            Selected { request, database_id },
        ),
{
    match database {
        Err(e) => QueryStep::Respond(Err(e)),
        Ok(database_id) => QueryStep::AuthorizeDatabase(Selected { request, database_id }),
    }
}

/// Goes on, given whether the identity may use the database. Data definition commands are tried
/// first.
pub fn database_authorized<R>(request: Selected, checked: Result<(), Error>) -> (r: QueryStep<R>)
    ensures
        forall|a: QueryAnswers<R>|
            a.authorized == checked ==> #[trigger] query_settled(r, a) == authorized(a),
        checked is Ok ==> {
            &&& r matches QueryStep::DispatchDdl(s, sql)
            &&& s == request
            &&& sql@ == text::trimmed(request.request.sql@)
        },
{
    match checked {
        Err(e) => QueryStep::Respond(Err(ApiError::from(e))),
        Ok(()) => {
            let sql = text::trim(request.request.sql.as_str()).to_owned();
            QueryStep::DispatchDdl(request, sql)
        },
    }
}

/// Goes on, given what came of the data definition command, where the statement is one.
pub fn ddl_dispatched<R>(
    request: Selected,
    ddl: Option<Result<Vec<R>, DdlError>>,
) -> (r: QueryStep<R>)
    ensures
        forall|a: QueryAnswers<R>|
            a.ddl == ddl ==> #[trigger] query_settled(r, a) == ddl_or_query(a),
        ddl is None ==> r == QueryStep::<R>::CheckQuota(request),
{
    match ddl {
        Some(Ok(rows)) => QueryStep::Respond(Ok(rows)),
        Some(Err(e)) => QueryStep::Respond(Err(dispatch::ddl_error_to_api(e))),
        None => QueryStep::CheckQuota(request),
    }
}

/// Goes on, given whether the tenant is within its quota. Nothing has been planned or run for the
/// request before.
pub fn quota_checked<R>(request: Selected, quota: Result<(), Error>) -> (r: QueryStep<R>)
    ensures
        forall|a: QueryAnswers<R>|
            a.quota == quota ==> #[trigger] query_settled(r, a) == within_quota(a),
        quota is Ok ==> r == QueryStep::<R>::PlanStatement(dispatch::scoped(request)),
{
    match quota {
        Err(e) => QueryStep::Respond(
            Err(ApiError::RateLimited { message: e.text, retry_after_secs: 1 }),
        ),
        Ok(()) => QueryStep::PlanStatement(dispatch::scope_to_database(request)),
    }
}

/// Asks for the next task to be run, or answers with the rows where none is left.
fn run_next<R>(run: Running<R>, gateway: bool) -> (r: QueryStep<R>)
    requires
        run.next <= run.plans@.len(),
    ensures
        if run.next < run.plans@.len() {
            r matches QueryStep::RunTask(same, route) && same == run && runnable(
                run,
                route,
                gateway,
            )
        } else {
            r == QueryStep::<R>::Respond(Ok(run.rows))
        },
{
    if run.next < run.plans.len() {
        let route = dispatch::route_task(&run.plans[run.next], gateway);
        QueryStep::RunTask(run, route)
    } else {
        QueryStep::Respond(Ok(run.rows))
    }
}

/// Goes on, given the plans of the statement, whose tasks are run in their order.
pub fn statement_planned<R>(
    request: Selected,
    plans: Result<Vec<PhysicalPlan>, Error>,
    gateway: bool,
) -> (r: QueryStep<R>)
    ensures
        forall|a: QueryAnswers<R>|
            a.plans == plans && (plans is Ok ==> a.outcomes.len() == plans->Ok_0@.len())
                ==> #[trigger] query_settled(r, a) == planned(a),
        plans matches Ok(plans) ==> if plans@.len() == 0 {
            r matches QueryStep::Respond(Ok(rows)) && rows@.len() == 0
        } else {
            r matches QueryStep::RunTask(run, route) && run.request == request && run.plans == plans
                && run.next == 0 && run.rows@.len() == 0 && runnable(run, route, gateway)
        },
{
    match plans {
        Err(e) => QueryStep::Respond(Err(ApiError::from(e))),
        Ok(plans) => {
            let run = Running { request, plans, next: 0, rows: Vec::new() };
            assert forall|a: QueryAnswers<R>|
                a.outcomes.len() == run.plans@.len() implies rows_after(
                Seq::<R>::empty(),
                #[trigger] a.outcomes.take(run.plans@.len() as int),
            ) == rows_after(run.rows@, a.outcomes.subrange(0, run.plans@.len() as int)) by {
                assert(a.outcomes.take(run.plans@.len() as int) =~= a.outcomes.subrange(
                    0,
                    run.plans@.len() as int,
                ));
                assert(run.rows@ =~= Seq::<R>::empty());
            }
            run_next(run, gateway)
        },
    }
}

/// Adds the rows of a payload.
fn append_payload<R>(rows: &mut Vec<R>, payload: ShapedPayload<R>) -> (r: Result<(), ApiError>)
    ensures
        match r {
            Ok(()) => with_payload(old(rows)@, payload) == Reply::Rows(final(rows)@),
            Err(e) => with_payload(old(rows)@, payload) == Reply::<R>::Error(e@) && final(rows)@
                == old(rows)@,
        },
{
    match payload {
        ShapedPayload::Empty => Ok(()),
        ShapedPayload::Rows(more) => {
            let mut more = more;
            rows.append(&mut more);
            Ok(())
        },
        ShapedPayload::Passthrough(row) => {
            rows.push(row);
            Ok(())
        },
        ShapedPayload::Failed(message) => Err(ApiError::Internal(message)),
    }
}

/// Adds the rows of a response, where it is a success. Otherwise the rows stay as they are.
pub fn append_response<R>(
    rows: &mut Vec<R>,
    ok: bool,
    error_code: Option<String>,
    payload: ShapedPayload<R>,
) -> (r: Result<(), ApiError>)
    ensures
        match r {
            Ok(()) => with_outcome(
                old(rows)@,
                TaskOutcome::Response { ok, error_code, payload },
            ) == Reply::Rows(final(rows)@),
            Err(e) => with_outcome(
                old(rows)@,
                TaskOutcome::Response { ok, error_code, payload },
            ) == Reply::<R>::Error(e@) && final(rows)@ == old(rows)@,
        },
{
    if !ok {
        return Err(dispatch::response_error(error_code));
    }
    append_payload(rows, payload)
}

/// Adds the rows of some payloads, up to the first that fails.
fn append_payloads<R>(rows: &mut Vec<R>, payloads: Vec<ShapedPayload<R>>) -> (r: Result<
    (),
    ApiError,
>)
    ensures
        match r {
            Ok(()) => with_payloads(old(rows)@, payloads@) == Reply::Rows(final(rows)@),
            Err(e) => with_payloads(old(rows)@, payloads@) == Reply::<R>::Error(e@),
        },
{
    let ghost all = payloads@;
    let mut rest = lists::reversed(payloads);
    let ghost start = rows@;
    let ghost mut k: int = 0;
    assert(all.take(0) =~= Seq::empty());
    while rest.len() > 0
        invariant
            start == old(rows)@,
            all == payloads@,
            0 <= k <= all.len(),
            rest@.len() == all.len() - k,
            forall|i: int| 0 <= i < rest@.len() ==> rest@[i] == all[all.len() - 1 - i],
            with_payloads(start, all.take(k)) == Reply::Rows(rows@),
        decreases rest@.len(),
    {
        match rest.pop() {
            Some(p) => {
                assert(p == all[k]);
                assert(all.take(k + 1).drop_last() =~= all.take(k));
                match append_payload(rows, p) {
                    Ok(()) => {},
                    Err(e) => {
                        proof {
                            lemma_first_failure(start, all, k + 1);
                        }
                        return Err(e);
                    },
                }
                proof {
                    k = k + 1;
                }
            },
            None => {},
        }
    }
    assert(all.take(k) =~= all);
    Ok(())
}

/// Once some payload has failed, later ones change nothing.
proof fn lemma_first_failure<R>(rows: Seq<R>, payloads: Seq<ShapedPayload<R>>, k: int)
    requires
        0 <= k <= payloads.len(),
        with_payloads(rows, payloads.take(k)) is Error,
    ensures
        with_payloads(rows, payloads) == with_payloads(rows, payloads.take(k)),
    decreases payloads.len() - k,
{
    if k == payloads.len() {
        assert(payloads.take(k) =~= payloads);
    } else {
        assert(payloads.take(k + 1).drop_last() =~= payloads.take(k));
        lemma_first_failure(rows, payloads, k + 1);
    }
}

/// Goes on, given what came of the next task. The first failure ends the statement.
pub fn task_ran<R>(run: Running<R>, outcome: TaskOutcome<R>, gateway: bool) -> (r: QueryStep<R>)
    requires
        run.next < run.plans@.len(),
    ensures
        forall|a: QueryAnswers<R>|
            a.outcomes.len() == run.plans@.len() && a.outcomes[run.next as int] == outcome
                ==> #[trigger] query_settled(r, a) == rows_after(
                run.rows@,
                a.outcomes.subrange(run.next as int, run.plans@.len() as int),
            ),
        r matches QueryStep::RunTask(after, route) ==> after.request == run.request && after.plans
            == run.plans && after.next == run.next + 1 && runnable(after, route, gateway),
{
    let Running { request, plans, next, rows } = run;
    let mut rows = rows;
    let ghost before = rows@;
    let count = plans.len();
    assert(next < count);
    let added = match outcome {
        TaskOutcome::Failed(error) => Err(dispatch::gateway_error(error)),
        TaskOutcome::Payloads(payloads) => append_payloads(&mut rows, payloads),
        TaskOutcome::Response { ok, error_code, payload } => append_response(
            &mut rows,
            ok,
            error_code,
            payload,
        ),
    };
    assert forall|a: QueryAnswers<R>|
        a.outcomes.len() == plans@.len() && a.outcomes[next as int] == outcome implies
        rows_after(
        before,
        #[trigger] a.outcomes.subrange(next as int, plans@.len() as int),
    ) == (match added {
        Ok(()) => rows_after(rows@, a.outcomes.subrange(next + 1, plans@.len() as int)),
        Err(e) => Reply::Error(e@),
    }) by {
        let left = a.outcomes.subrange(next as int, plans@.len() as int);
        assert(left.first() == outcome);
        assert(left.drop_first() =~= a.outcomes.subrange(next + 1, plans@.len() as int));
    }
    match added {
        Ok(()) => run_next(Running { request, plans, next: next + 1, rows }, gateway),
        Err(e) => QueryStep::Respond(Err(e)),
    }
}

} // verus!
