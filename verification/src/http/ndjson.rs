//! Running a statement and answering with one JSON text for each line.
//!
//! [`query_ndjson`] takes a request through authentication, the choice of a database, the quota and
//! the planner. A plan that can be streamed is streamed; the tasks of any other are run one after
//! the other. Each is done by others: a [`NdjsonStep`] says what is to be done next, and what came
//! of it goes into the function that the step names. An error of a task becomes a line of the
//! answer and does not keep later tasks from being run.

use vstd::prelude::*;

use super::auth;
use super::auth::{ApiError, ApiErrorView, AuthContext};
use super::dispatch;
use super::dispatch::{Authenticated, DatabaseChoice, Selected, TaskRoute};
use super::json;
use super::materialized;
use crate::error::Error;
use crate::identity::{AuthenticatedIdentity, DatabaseId};
use crate::plan::physical::PhysicalPlan;
use crate::text;

verus! {

/// What a payload comes to.
pub enum ShapedLines {
    /// There is nothing in it.
    Empty,
    /// Each of these is the JSON text of a row.
    Rows(Vec<String>),
    /// This is added to the answer as it stands.
    Passthrough(String),
    /// It could not be shaped, and why.
    Failed(String),
}

/// What came of a task.
pub enum LinesOutcome {
    /// It could not be run, and why.
    Failed(String),
    Payloads(Vec<ShapedLines>),
}

/// The answer to a request.
pub enum NdjsonReply {
    /// The request failed.
    Error(ApiError),
    /// There is no statement.
    EmptySql,
    /// The tenant is over its quota, which this JSON text reports.
    QuotaExceeded { body: String },
    /// The stream that was opened.
    Stream,
    /// These lines.
    Body(String),
}

/// The answer to a request, texts taken as such.
pub enum NdjsonReplyView {
    Error(ApiErrorView),
    EmptySql,
    QuotaExceeded { body: Seq<char> },
    Stream,
    Body(Seq<char>),
}

impl View for NdjsonReply {
    type V = NdjsonReplyView;

    open spec fn view(&self) -> NdjsonReplyView {
        match self {
            NdjsonReply::Error(e) => NdjsonReplyView::Error(e@),
            NdjsonReply::EmptySql => NdjsonReplyView::EmptySql,
            NdjsonReply::QuotaExceeded { body } => NdjsonReplyView::QuotaExceeded { body: body@ },
            NdjsonReply::Stream => NdjsonReplyView::Stream,
            NdjsonReply::Body(body) => NdjsonReplyView::Body(body@),
        }
    }
}

/// What the body of a response is.
pub enum ResponseBody {
    /// The JSON object that reports this error.
    Error(String),
    Text(String),
    /// What comes out of the stream that was opened.
    Stream,
}

/// What the body of a response is, texts taken as such.
pub enum BodyView {
    Error(Seq<char>),
    Text(Seq<char>),
    Stream,
}

impl View for ResponseBody {
    type V = BodyView;

    open spec fn view(&self) -> BodyView {
        match self {
            ResponseBody::Error(message) => BodyView::Error(message@),
            ResponseBody::Text(text) => BodyView::Text(text@),
            ResponseBody::Stream => BodyView::Stream,
        }
    }
}

/// The response that an answer is sent as.
pub struct NdjsonResponse {
    pub status: u16,
    pub content_type: &'static str,
    /// The value of the `Retry-After` header, where there is one.
    pub retry_after: Option<String>,
    pub body: ResponseBody,
}

/// The status of an answer.
pub open spec fn reply_status(reply: NdjsonReplyView) -> u16 {
    match reply {
        NdjsonReplyView::Error(e) => auth::status_of(e),
        NdjsonReplyView::EmptySql => 400,
        NdjsonReplyView::QuotaExceeded { .. } => 429,
        NdjsonReplyView::Stream => 200,
        NdjsonReplyView::Body(_) => 200,
    }
}

/// The media type of an answer: lines are newline-delimited JSON, streamed or not.
pub open spec fn reply_type(reply: NdjsonReplyView) -> Seq<char> {
    match reply {
        NdjsonReplyView::Error(_) => "application/json"@,
        NdjsonReplyView::EmptySql => "text/plain; charset=utf-8"@,
        NdjsonReplyView::QuotaExceeded { .. } => "application/json"@,
        NdjsonReplyView::Stream => "application/x-ndjson"@,
        NdjsonReplyView::Body(_) => "application/x-ndjson"@,
    }
}

/// After how many seconds to try again, where an answer says so.
pub open spec fn reply_retry(reply: NdjsonReplyView) -> Option<Seq<char>> {
    match reply {
        NdjsonReplyView::Error(ApiErrorView::RateLimited { retry_after_secs, .. }) => Some(
            text::decimal(retry_after_secs as nat),
        ),
        NdjsonReplyView::QuotaExceeded { .. } => Some("1"@),
        _ => None,
    }
}

/// The body of an answer.
pub open spec fn reply_body(reply: NdjsonReplyView) -> BodyView {
    match reply {
        NdjsonReplyView::Error(e) => BodyView::Error(auth::message_of(e)),
        NdjsonReplyView::EmptySql => BodyView::Text("empty SQL"@),
        NdjsonReplyView::QuotaExceeded { body } => BodyView::Text(body),
        NdjsonReplyView::Stream => BodyView::Stream,
        NdjsonReplyView::Body(body) => BodyView::Text(body),
    }
}

impl NdjsonReply {
    /// The response that this answer is sent as.
    pub fn into_response(self) -> (r: NdjsonResponse)
        ensures
            r.status == reply_status(self@),
            r.content_type@ == reply_type(self@),
            dispatch::optional_text(r.retry_after) == reply_retry(self@),
            r.body@ == reply_body(self@),
    {
        match self {
            NdjsonReply::Error(e) => {
                let reply = e.into_response();
                NdjsonResponse {
                    status: reply.status,
                    content_type: "application/json",
                    retry_after: reply.retry_after,
                    body: ResponseBody::Error(reply.message),
                }
            },
            NdjsonReply::EmptySql => NdjsonResponse {
                status: 400,
                content_type: "text/plain; charset=utf-8",
                retry_after: None,
                body: ResponseBody::Text("empty SQL".to_owned()),
            },
            NdjsonReply::QuotaExceeded { body } => NdjsonResponse {
                status: 429,
                content_type: "application/json",
                retry_after: Some("1".to_owned()),
                body: ResponseBody::Text(body),
            },
            NdjsonReply::Stream => NdjsonResponse {
                status: 200,
                content_type: "application/x-ndjson",
                retry_after: None,
                body: ResponseBody::Stream,
            },
            NdjsonReply::Body(body) => NdjsonResponse {
                status: 200,
                content_type: "application/x-ndjson",
                retry_after: None,
                body: ResponseBody::Text(body),
            },
        }
    }
}

/// The tasks of a statement, some of which have been run.
pub struct RunningLines {
    pub request: Selected,
    pub plans: Vec<PhysicalPlan>,
    pub next: usize,
    pub body: String,
}

/// What is to be done next for a request.
pub enum NdjsonStep {
    /// Answer with this.
    Respond(NdjsonReply),
    /// Look up the database that the request asks for, then call [`stream_database_resolved`].
    ResolveDatabase(Authenticated, DatabaseChoice),
    /// Check that the identity may use the database, then call [`stream_database_authorized`].
    AuthorizeDatabase(Selected),
    /// Check the quota of the tenant, then call [`stream_quota_checked`].
    CheckQuota(Selected, String),
    /// Plan this statement, then call [`stream_planned`].
    PlanStatement(Selected, String),
    /// Try to open a stream of the results, then call [`stream_opened`].
    OpenStream(Selected, Vec<PhysicalPlan>),
    /// Run the next task by this route, then call [`stream_task_ran`].
    RunTask(RunningLines, TaskRoute),
}

/// A line that reports an error.
pub open spec fn error_line(message: Seq<char>) -> Seq<char> {
    json::error_object(message) + "\n"@
}

/// The lines of some rows.
pub open spec fn row_lines(rows: Seq<String>) -> Seq<char>
    decreases rows.len(),
{
    if rows.len() == 0 {
        Seq::empty()
    } else {
        row_lines(rows.drop_last()) + rows.last()@ + "\n"@
    }
}

/// What a payload adds to the answer.
pub open spec fn payload_lines(payload: ShapedLines) -> Seq<char> {
    match payload {
        ShapedLines::Empty => Seq::empty(),
        ShapedLines::Rows(rows) => row_lines(rows@),
        ShapedLines::Passthrough(text) => text@,
        ShapedLines::Failed(message) => error_line(message@),
    }
}

/// What some payloads add to the answer.
pub open spec fn payloads_lines(payloads: Seq<ShapedLines>) -> Seq<char>
    decreases payloads.len(),
{
    if payloads.len() == 0 {
        Seq::empty()
    } else {
        payloads_lines(payloads.drop_last()) + payload_lines(payloads.last())
    }
}

/// What a task adds to the answer.
pub open spec fn outcome_lines(outcome: LinesOutcome) -> Seq<char> {
    match outcome {
        LinesOutcome::Failed(message) => error_line(message@),
        LinesOutcome::Payloads(payloads) => payloads_lines(payloads@),
    }
}

/// What some tasks add to the answer, in their order.
pub open spec fn outcomes_lines(outcomes: Seq<LinesOutcome>) -> Seq<char>
    decreases outcomes.len(),
{
    if outcomes.len() == 0 {
        Seq::empty()
    } else {
        outcome_lines(outcomes.first()) + outcomes_lines(outcomes.drop_first())
    }
}

/// What comes of everything that is done for a request, should it be done.
pub struct NdjsonAnswers {
    pub database: Result<DatabaseId, ApiError>,
    pub authorized: Result<(), Error>,
    pub quota: Result<(), Error>,
    pub plans: Result<Vec<PhysicalPlan>, Error>,
    /// Whether a stream was opened, or why that failed.
    pub stream: Result<bool, Error>,
    /// One outcome for each plan.
    pub outcomes: Seq<LinesOutcome>,
}

/// The answer to a request whose stream is to be opened.
pub open spec fn streamed(plans: nat, a: NdjsonAnswers) -> NdjsonReplyView {
    match a.stream {
        Err(e) => NdjsonReplyView::Error(materialized::reported(e)),
        Ok(true) => NdjsonReplyView::Stream,
        Ok(false) => NdjsonReplyView::Body(outcomes_lines(a.outcomes.take(plans as int))),
    }
}

/// The answer to a request whose statement is to be planned.
pub open spec fn planned(a: NdjsonAnswers) -> NdjsonReplyView {
    match a.plans {
        Err(e) => NdjsonReplyView::Error(materialized::reported(e)),
        Ok(plans) => streamed(plans@.len(), a),
    }
}

/// The answer to a request whose quota is to be checked.
pub open spec fn within_quota(a: NdjsonAnswers) -> NdjsonReplyView {
    match a.quota {
        Err(e) => NdjsonReplyView::QuotaExceeded { body: json::error_object(e.text@) },
        Ok(()) => planned(a),
    }
}

/// The answer to a request for `sql` whose database is to be authorized.
pub open spec fn authorized(sql: Seq<char>, a: NdjsonAnswers) -> NdjsonReplyView {
    match a.authorized {
        Err(e) => NdjsonReplyView::Error(materialized::reported(e)),
        Ok(()) => if text::trimmed(sql).len() == 0 {
            NdjsonReplyView::EmptySql
        } else {
            within_quota(a)
        },
    }
}

/// The answer to a request for `sql` of which it is known who it comes from.
pub open spec fn in_database(sql: Seq<char>, a: NdjsonAnswers) -> NdjsonReplyView {
    match a.database {
        Err(e) => NdjsonReplyView::Error(e@),
        Ok(_) => authorized(sql, a),
    }
}

/// The answer to a request for `sql`, from its beginning.
pub open spec fn answer(
    auth: Result<(AuthenticatedIdentity, AuthContext), ApiError>,
    sql: Seq<char>,
    a: NdjsonAnswers,
) -> NdjsonReplyView {
    match auth {
        Err(e) => NdjsonReplyView::Error(e@),
        Ok(_) => in_database(sql, a),
    }
}

/// The answer to a request that has come as far as `step`.
pub open spec fn ndjson_settled(step: NdjsonStep, a: NdjsonAnswers) -> NdjsonReplyView {
    match step {
        NdjsonStep::Respond(reply) => reply@,
        NdjsonStep::ResolveDatabase(request, _) => in_database(request.sql@, a),
        NdjsonStep::AuthorizeDatabase(s) => authorized(s.request.sql@, a),
        NdjsonStep::CheckQuota(_, _) => within_quota(a),
        NdjsonStep::PlanStatement(_, _) => planned(a),
        NdjsonStep::OpenStream(_, plans) => streamed(plans@.len(), a),
        NdjsonStep::RunTask(run, _) => NdjsonReplyView::Body(
            run.body@ + outcomes_lines(
                a.outcomes.subrange(run.next as int, run.plans@.len() as int),
            ),
        ),
    }
}

/// Whether there is a next task, and `route` is its route.
pub open spec fn runnable(run: RunningLines, route: TaskRoute, gateway: bool) -> bool {
    run.next < run.plans@.len() && route == dispatch::route_of(
        run.plans@[run.next as int],
        gateway,
    )
}

/// Begins to answer a request, given who it comes from, or why that cannot be said. The
/// database is the one that the `X-NodeDB-Database` header names or, without that header, the
/// `database` parameter.
pub fn query_ndjson(
    auth: Result<(AuthenticatedIdentity, AuthContext), ApiError>,
    headers: &axum::http::HeaderMap<axum::http::HeaderValue>,
    database: Option<String>,
    sql: String,
) -> (r: NdjsonStep)
    ensures
        forall|a: NdjsonAnswers| #[trigger] ndjson_settled(r, a) == answer(auth, sql@, a),
        auth matches Ok(known) ==> {
            &&& r matches NdjsonStep::ResolveDatabase(request, choice)
            &&& request == (Authenticated { identity: known.0, auth_ctx: known.1, sql })
            &&& choice@ == dispatch::chosen_database(*headers, database)
        },
{
    match auth {
        Err(e) => NdjsonStep::Respond(NdjsonReply::Error(e)),
        Ok((identity, auth_ctx)) => {
            let choice = dispatch::choose_database(headers, database);
            NdjsonStep::ResolveDatabase(Authenticated { identity, auth_ctx, sql }, choice)
        },
    }
}

/// Goes on, given the database that the request is for.
pub fn stream_database_resolved(
    request: Authenticated,
    database: Result<DatabaseId, ApiError>,
) -> (r: NdjsonStep)
    ensures
        forall|a: NdjsonAnswers|
            a.database == database ==> #[trigger] ndjson_settled(r, a) == in_database(
                request.sql@,
                a,
            ),
        database matches Ok(database_id) ==> r == NdjsonStep::AuthorizeDatabase(
            Selected { request, database_id },
        ),
{
    match database {
        Err(e) => NdjsonStep::Respond(NdjsonReply::Error(e)),
        Ok(database_id) => NdjsonStep::AuthorizeDatabase(Selected { request, database_id }),
    }
}

/// Goes on, given whether the identity may use the database.
pub fn stream_database_authorized(request: Selected, checked: Result<(), Error>) -> (r: NdjsonStep)
    ensures
        forall|a: NdjsonAnswers|
            a.authorized == checked ==> #[trigger] ndjson_settled(r, a) == authorized(
                request.request.sql@,
                a,
            ),
        checked is Ok && text::trimmed(request.request.sql@).len() > 0 ==> {
            &&& r matches NdjsonStep::CheckQuota(s, sql)
            &&& s == request
            &&& sql@ == text::trimmed(request.request.sql@)
        },
{
    match checked {
        Err(e) => NdjsonStep::Respond(NdjsonReply::Error(ApiError::from(e))),
        Ok(()) => {
            let sql = text::trim(request.request.sql.as_str()).to_owned();
            if sql.as_str().is_empty() {
                return NdjsonStep::Respond(NdjsonReply::EmptySql);
            }
            NdjsonStep::CheckQuota(request, sql)
        },
    }
}

/// Goes on, given whether the tenant is within its quota. Nothing has been planned or run for the
/// request before.
pub fn stream_quota_checked(
    request: Selected,
    sql: String,
    quota: Result<(), Error>,
) -> (r: NdjsonStep)
    ensures
        forall|a: NdjsonAnswers|
            a.quota == quota ==> #[trigger] ndjson_settled(r, a) == within_quota(a),
        quota is Ok ==> r == NdjsonStep::PlanStatement(dispatch::scoped(request), sql),
{
    match quota {
        Err(e) => NdjsonStep::Respond(
            NdjsonReply::QuotaExceeded { body: json::error_json(e.text.as_str()) },
        ),
        Ok(()) => NdjsonStep::PlanStatement(dispatch::scope_to_database(request), sql),
    }
}

/// Goes on, given the plans of the statement.
pub fn stream_planned(request: Selected, plans: Result<Vec<PhysicalPlan>, Error>) -> (r: NdjsonStep)
    ensures
        forall|a: NdjsonAnswers|
            a.plans == plans ==> #[trigger] ndjson_settled(r, a) == planned(a),
        plans matches Ok(plans) ==> r == NdjsonStep::OpenStream(request, plans),
{
    match plans {
        Err(e) => NdjsonStep::Respond(NdjsonReply::Error(ApiError::from(e))),
        Ok(plans) => NdjsonStep::OpenStream(request, plans),
    }
}

/// Asks for the next task to be run, or answers with the lines where none is left.
fn run_next(run: RunningLines, gateway: bool) -> (r: NdjsonStep)
    requires
        run.next <= run.plans@.len(),
    ensures
        if run.next < run.plans@.len() {
            r matches NdjsonStep::RunTask(same, route) && same == run && runnable(
                run,
                route,
                gateway,
            )
        } else {
            r == NdjsonStep::Respond(NdjsonReply::Body(run.body))
        },
{
    if run.next < run.plans.len() {
        let route = dispatch::route_task(&run.plans[run.next], gateway);
        NdjsonStep::RunTask(run, route)
    } else {
        NdjsonStep::Respond(NdjsonReply::Body(run.body))
    }
}

/// Goes on, given whether a stream was opened. Where none was, the tasks are run in their order.
pub fn stream_opened(
    request: Selected,
    plans: Vec<PhysicalPlan>,
    stream: Result<bool, Error>,
    gateway: bool,
) -> (r: NdjsonStep)
    ensures
        forall|a: NdjsonAnswers|
            a.stream == stream && a.outcomes.len() == plans@.len() ==> #[trigger] ndjson_settled(
                r,
                a,
            ) == streamed(plans@.len(), a),
        stream == Ok::<bool, Error>(false) && plans@.len() > 0 ==> (r matches NdjsonStep::RunTask(
            run,
            route,
        ) && run.request == request && run.plans == plans && run.next == 0 && run.body@.len() == 0
            && runnable(run, route, gateway)),
        stream != Ok::<bool, Error>(false) || plans@.len() == 0 ==> r is Respond,
{
    match stream {
        Err(e) => NdjsonStep::Respond(NdjsonReply::Error(ApiError::from(e))),
        Ok(opened) => {
            if opened {
                return NdjsonStep::Respond(NdjsonReply::Stream);
            }
            let run = RunningLines { request, plans, next: 0, body: String::new() };
            assert forall|a: NdjsonAnswers|
                a.outcomes.len() == run.plans@.len() implies outcomes_lines(
                #[trigger] a.outcomes.take(run.plans@.len() as int),
            ) == run.body@ + outcomes_lines(
                a.outcomes.subrange(0, run.plans@.len() as int),
            ) by {
                assert(a.outcomes.take(run.plans@.len() as int) =~= a.outcomes.subrange(
                    0,
                    run.plans@.len() as int,
                ));
                let lines = outcomes_lines(a.outcomes.take(run.plans@.len() as int));
                assert(run.body@ + lines =~= lines);
            }
            run_next(run, gateway)
        },
    }
}

fn append_error(body: &mut String, message: &str)
    ensures
        final(body)@ == old(body)@ + error_line(message@),
{
    body.append(json::error_json(message).as_str());
    body.append("\n");
    assert(body@ =~= old(body)@ + error_line(message@));
}

fn append_rows(body: &mut String, rows: &Vec<String>)
    ensures
        final(body)@ == old(body)@ + row_lines(rows@),
{
    let ghost start = body@;
    let mut i: usize = 0;
    assert(start + row_lines(rows@.take(0)) =~= start);
    while i < rows.len()
        invariant
            i <= rows@.len(),
            body@ == start + row_lines(rows@.take(i as int)),
        decreases rows@.len() - i,
    {
        body.append(rows[i].as_str());
        body.append("\n");
        proof {
            let shown = rows@.take(i as int + 1);
            assert(shown.drop_last() =~= rows@.take(i as int));
            assert(body@ =~= start + row_lines(shown));
        }
        i += 1;
    }
    assert(rows@.take(i as int) =~= rows@);
}

fn append_payload(body: &mut String, payload: &ShapedLines)
    ensures
        final(body)@ == old(body)@ + payload_lines(*payload),
{
    match payload {
        ShapedLines::Empty => {
            assert(body@ =~= old(body)@ + payload_lines(*payload));
        },
        ShapedLines::Rows(rows) => append_rows(body, rows),
        ShapedLines::Passthrough(text) => body.append(text.as_str()),
        ShapedLines::Failed(message) => append_error(body, message.as_str()),
    }
}

fn append_payloads(body: &mut String, payloads: &Vec<ShapedLines>)
    ensures
        final(body)@ == old(body)@ + payloads_lines(payloads@),
{
    let ghost start = body@;
    let mut i: usize = 0;
    assert(start + payloads_lines(payloads@.take(0)) =~= start);
    while i < payloads.len()
        invariant
            i <= payloads@.len(),
            body@ == start + payloads_lines(payloads@.take(i as int)),
        decreases payloads@.len() - i,
    {
        append_payload(body, &payloads[i]);
        proof {
            let shown = payloads@.take(i as int + 1);
            assert(shown.drop_last() =~= payloads@.take(i as int));
            assert(body@ =~= start + payloads_lines(shown));
        }
        i += 1;
    }
    assert(payloads@.take(i as int) =~= payloads@);
}

/// Goes on, given what came of the next task. A failure is reported in a line of its own, and the
/// tasks after it are run all the same.
pub fn stream_task_ran(run: RunningLines, outcome: LinesOutcome, gateway: bool) -> (r: NdjsonStep)
    requires
        run.next < run.plans@.len(),
    ensures
        forall|a: NdjsonAnswers|
            a.outcomes.len() == run.plans@.len() && a.outcomes[run.next as int] == outcome
                ==> #[trigger] ndjson_settled(r, a) == NdjsonReplyView::Body(
                run.body@ + outcomes_lines(
                    a.outcomes.subrange(run.next as int, run.plans@.len() as int),
                ),
            ),
        run.next + 1 < run.plans@.len() ==> (r matches NdjsonStep::RunTask(after, route)
            && after.request == run.request && after.plans == run.plans && after.next == run.next + 1
            && runnable(after, route, gateway)),
        run.next + 1 == run.plans@.len() ==> r is Respond,
{
    let RunningLines { request, plans, next, body } = run;
    let mut body = body;
    let ghost before = body@;
    let count = plans.len();
    assert(next < count);
    match &outcome {
        LinesOutcome::Failed(message) => append_error(&mut body, message.as_str()),
        LinesOutcome::Payloads(payloads) => append_payloads(&mut body, payloads),
    }
    assert forall|a: NdjsonAnswers|
        a.outcomes.len() == plans@.len() && a.outcomes[next as int] == outcome implies before
        + outcomes_lines(#[trigger] a.outcomes.subrange(next as int, plans@.len() as int)) == body@
        + outcomes_lines(a.outcomes.subrange(next + 1, plans@.len() as int)) by {
        let left = a.outcomes.subrange(next as int, plans@.len() as int);
        assert(left.first() == outcome);
        assert(left.drop_first() =~= a.outcomes.subrange(next + 1, plans@.len() as int));
        let rest = outcomes_lines(left.drop_first());
        assert(before + (outcome_lines(outcome) + rest) =~= before + outcome_lines(outcome) + rest);
    }
    assert forall|a: NdjsonAnswers|
        next + 1 == plans@.len() && a.outcomes.len() == plans@.len() implies #[trigger]
        outcomes_lines(a.outcomes.subrange(next + 1, plans@.len() as int)) =~= Seq::empty() by {}
    run_next(RunningLines { request, plans, next: next + 1, body }, gateway)
}

} // verus!
