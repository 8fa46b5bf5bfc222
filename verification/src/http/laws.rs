//! What the HTTP interface promises.

use vstd::prelude::*;

use super::auth;
use super::auth::{
    ApiError, ApiErrorView, AppState, AuthContext, AuthStep, CredentialsView, DenyMode, Findings,
    ResolvedView,
};
use super::dispatch;
use super::dispatch::ChoiceView;
use super::headers::HeaderTextView;
use super::materialized;
use super::materialized::{QueryAnswers, Reply, TaskOutcome};
use super::ndjson;
use super::ndjson::{LinesOutcome, NdjsonAnswers};
use crate::identity::AuthenticatedIdentity;
use crate::text;

verus! {

/// A client chooses between two answers to rows that it may not see, and puts no word of its own
/// into either. What it is authorized to do stays as it was.
pub proof fn law_clients_do_not_word_refusals(
    before: AuthContext,
    header: HeaderTextView,
    after: AuthContext,
)
    requires
        auth::overridden(before, auth::on_deny(header), after),
    ensures
        after == (AuthContext { on_deny_override: after.on_deny_override, ..before }),
        after.on_deny_override == before.on_deny_override || after.on_deny_override == Some(
            DenyMode::Silent,
        ) || (after.on_deny_override matches Some(DenyMode::Error(e)) && e.code@
            == auth::RLS_READ_DENIED@ && e.message@ == "Access denied by row-level security policy"@
            && e.detail is None),
{
}

/// A request that names a bearer token is never taken for the trust identity: who it comes from
/// depends on its token alone.
pub proof fn law_tokens_are_never_trusted_blindly(
    token: Seq<char>,
    state: AppState,
    f: Findings,
    g: Findings,
)
    requires
        f.jwt == g.jwt,
        f.api_key == g.api_key,
    ensures
        auth::who(CredentialsView::Bearer(token), state, f) == auth::who(
            CredentialsView::Bearer(token),
            state,
            g,
        ),
        f.jwt is None && f.api_key is None ==> auth::who(CredentialsView::Bearer(token), state, f)
            == ResolvedView::Unknown(ApiErrorView::Unauthorized("invalid bearer token"@)),
{
}

/// Whoever a request comes from when the identity alone is asked for, it comes from when what is
/// known of it is asked for as well.
pub proof fn law_both_ways_find_the_same_identity(
    step: AuthStep,
    credentials: CredentialsView,
    state: AppState,
    peer: Seq<char>,
    f: Findings,
)
    requires
        auth::begins_auth(step, credentials, state, peer),
    ensures
        auth::auth_settled(step, credentials, state, f) == auth::who(credentials, state, f),
{
}

/// A request without a token comes from someone known only where the server trusts its clients, and
/// from nobody but the configured trust identity.
pub proof fn law_only_trust_needs_no_token(
    credentials: CredentialsView,
    state: AppState,
    f: Findings,
)
    requires
        credentials !is Bearer,
        auth::who(credentials, state, f) is Known,
    ensures
        state.auth_mode is Trust,
        f.trust_identity == Some(auth::who(credentials, state, f)->Known_0),
{
}

/// Whoever cannot be known is told that the request is unauthorized.
pub proof fn law_the_unknown_are_unauthorized(
    credentials: CredentialsView,
    state: AppState,
    f: Findings,
)
    requires
        auth::who(credentials, state, f) is Unknown,
    ensures
        auth::status_of(auth::who(credentials, state, f)->Unknown_0) == 401,
{
}

/// Every error is reported with an HTTP status.
pub proof fn law_errors_have_a_status(e: ApiErrorView)
    ensures
        100 <= auth::status_of(e) <= 999,
{
}

/// What may be done for a request before its database is authorized has no bearing on a refusal:
/// the answer is the same whatever would come of the statement.
pub proof fn law_refused_databases_see_no_work<R>(
    auth: Result<(AuthenticatedIdentity, AuthContext), ApiError>,
    a: QueryAnswers<R>,
    b: QueryAnswers<R>,
)
    requires
        a.database == b.database,
        a.authorized == b.authorized,
        auth is Err || a.database is Err || a.authorized is Err,
    ensures
        materialized::answer(auth, a) == materialized::answer(auth, b),
        materialized::answer(auth, a) is Error,
{
}

/// A tenant over its quota is told so, and to try again after a second, whatever planning and
/// running the statement would come to.
pub proof fn law_quota_comes_before_planning<R>(
    auth: Result<(AuthenticatedIdentity, AuthContext), ApiError>,
    a: QueryAnswers<R>,
)
    requires
        auth is Ok,
        a.database is Ok,
        a.authorized is Ok,
        a.ddl is None,
        a.quota is Err,
    ensures
        materialized::answer(auth, a) == Reply::<R>::Error(
            ApiErrorView::RateLimited { message: a.quota->Err_0.text@, retry_after_secs: 1 },
        ),
{
}

/// The tasks of a statement are answered in their order: running some and then the rest gives what
/// running all gives, and once one has failed the rest change nothing.
pub proof fn law_tasks_are_answered_in_order<R>(
    rows: Seq<R>,
    first: Seq<TaskOutcome<R>>,
    rest: Seq<TaskOutcome<R>>,
)
    ensures
        materialized::rows_after(rows, first + rest) == (match materialized::rows_after(
            rows,
            first,
        ) {
            Reply::Error(e) => Reply::Error(e),
            Reply::Rows(more) => materialized::rows_after(more, rest),
        }),
    decreases first.len(),
{
    if first.len() == 0 {
        assert(first + rest =~= rest);
    } else {
        assert((first + rest).first() == first.first());
        assert((first + rest).drop_first() =~= first.drop_first() + rest);
        match materialized::with_outcome(rows, first.first()) {
            Reply::Error(_) => {},
            Reply::Rows(more) => {
                law_tasks_are_answered_in_order(more, first.drop_first(), rest);
            },
        }
    }
}

/// Rows that have been answered are never taken back: what a task adds comes after them.
pub proof fn law_rows_are_only_added<R>(rows: Seq<R>, outcomes: Seq<TaskOutcome<R>>)
    ensures
        materialized::rows_after(rows, outcomes) matches Reply::Rows(all) ==> rows.is_prefix_of(
            all,
        ),
    decreases outcomes.len(),
{
    if outcomes.len() > 0 {
        match materialized::with_outcome(rows, outcomes.first()) {
            Reply::Error(_) => {},
            Reply::Rows(more) => {
                lemma_outcome_adds(rows, outcomes.first());
                law_rows_are_only_added(more, outcomes.drop_first());
                match materialized::rows_after(more, outcomes.drop_first()) {
                    Reply::Rows(all) => {
                        assert(rows =~= all.subrange(0, rows.len() as int));
                    },
                    Reply::Error(_) => {},
                }
            },
        }
    }
}

proof fn lemma_outcome_adds<R>(rows: Seq<R>, outcome: TaskOutcome<R>)
    ensures
        materialized::with_outcome(rows, outcome) matches Reply::Rows(all) ==> rows.is_prefix_of(
            all,
        ),
{
    match outcome {
        TaskOutcome::Payloads(payloads) => lemma_payloads_add(rows, payloads@),
        _ => {},
    }
}

proof fn lemma_payloads_add<R>(rows: Seq<R>, payloads: Seq<materialized::ShapedPayload<R>>)
    ensures
        materialized::with_payloads(rows, payloads) matches Reply::Rows(all) ==> rows.is_prefix_of(
            all,
        ),
    decreases payloads.len(),
{
    if payloads.len() > 0 {
        lemma_payloads_add(rows, payloads.drop_last());
        match materialized::with_payloads(rows, payloads) {
            Reply::Rows(all) => {
                assert(rows =~= all.subrange(0, rows.len() as int));
            },
            Reply::Error(_) => {},
        }
    }
}

/// An orchestrator gets a task exactly where it is an insert from a query, or a merge or an update
/// from a join that is to be applied and that nobody has worked out yet; and that does not depend
/// on the gateway.
pub proof fn law_orchestrated_tasks(plan: crate::plan::physical::PhysicalPlan)
    ensures
        dispatch::route_of(plan, true) is Gateway <==> dispatch::route_of(plan, false) is Local,
        dispatch::route_of(plan, true) !is Gateway ==> dispatch::route_of(plan, true)
            == dispatch::route_of(plan, false) && plan is Document,
{
}

/// A request over its quota, without a statement or without the right to its database is answered
/// before anything is planned.
pub proof fn law_streams_are_planned_last(
    auth: Result<(AuthenticatedIdentity, AuthContext), ApiError>,
    sql: Seq<char>,
    a: NdjsonAnswers,
    b: NdjsonAnswers,
)
    requires
        a.database == b.database,
        a.authorized == b.authorized,
        a.quota == b.quota,
        auth is Err || a.database is Err || a.authorized is Err || a.quota is Err || text::trimmed(
            sql,
        ).len() == 0,
    ensures
        ndjson::answer(auth, sql, a) == ndjson::answer(auth, sql, b),
        ndjson::answer(auth, sql, a) !is Body && ndjson::answer(auth, sql, a) !is Stream,
{
}

/// A failing task does not keep later ones from being answered: the lines of some tasks and of the
/// rest are the lines of all.
pub proof fn law_every_task_has_its_lines(first: Seq<LinesOutcome>, rest: Seq<LinesOutcome>)
    ensures
        ndjson::outcomes_lines(first + rest) == ndjson::outcomes_lines(first)
            + ndjson::outcomes_lines(rest),
    decreases first.len(),
{
    if first.len() == 0 {
        assert(first + rest =~= rest);
        assert(ndjson::outcomes_lines(first) + ndjson::outcomes_lines(rest)
            =~= ndjson::outcomes_lines(rest));
    } else {
        assert((first + rest).first() == first.first());
        assert((first + rest).drop_first() =~= first.drop_first() + rest);
        law_every_task_has_its_lines(first.drop_first(), rest);
        let a = ndjson::outcome_lines(first.first());
        let b = ndjson::outcomes_lines(first.drop_first());
        let c = ndjson::outcomes_lines(rest);
        assert(a + (b + c) =~= (a + b) + c);
    }
}

/// Every row and every error ends its line.
pub proof fn law_lines_are_ended(rows: Seq<String>, message: Seq<char>)
    ensures
        rows.len() > 0 ==> ndjson::row_lines(rows).last() == '\n',
        ndjson::error_line(message).last() == '\n',
{
    reveal_strlit("\n");
    if rows.len() > 0 {
        let head = ndjson::row_lines(rows.drop_last()) + rows.last()@;
        assert((head + "\n"@).last() == '\n');
    }
    assert((super::json::error_object(message) + "\n"@).last() == '\n');
}

/// A database that the header names is asked for whatever the parameter says. The parameter counts
/// only where there is no such header.
pub proof fn law_the_header_names_the_database(
    header: HeaderTextView,
    parameter: Option<Seq<char>>,
    other: Option<Seq<char>>,
)
    ensures
        header !is Missing ==> dispatch::database_asked_for(header, parameter)
            == dispatch::database_asked_for(header, other),
        header matches HeaderTextView::Text(name) ==> dispatch::database_asked_for(
            header,
            parameter,
        ) == ChoiceView::Named(name),
        header is Missing && parameter is Some ==> dispatch::database_asked_for(header, parameter)
            == ChoiceView::Named(parameter->0),
{
}

} // verus!
