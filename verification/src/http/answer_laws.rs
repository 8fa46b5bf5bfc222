//! What the answers to statements promise.

use vstd::prelude::*;

use super::auth;
use super::auth::{ApiError, ApiErrorView, AuthContext};
use super::dispatch;
use super::json;
use super::materialized;
use super::materialized::{QueryAnswers, Reply, ShapedPayload, TaskOutcome};
use super::ndjson;
use super::ndjson::{BodyView, LinesOutcome, NdjsonAnswers, NdjsonReply, NdjsonReplyView, ShapedLines};
use crate::identity::AuthenticatedIdentity;
use crate::text;

verus! {

/// The answer to a statement is what the first of these comes to that decides: who asks, the database,
/// the right to it, the data definition commands, the quota, the planner; and where none of them does,
/// what its tasks come to, from no rows on.
pub proof fn law_what_decides_an_answer<R>(
    known: Result<(AuthenticatedIdentity, AuthContext), ApiError>,
    a: QueryAnswers<R>,
)
    ensures
        materialized::answer(known, a) == (if known is Err {
            Reply::Error(known->Err_0@)
        } else if a.database is Err {
            Reply::Error(a.database->Err_0@)
        } else if a.authorized is Err {
            Reply::Error(materialized::reported(a.authorized->Err_0))
        } else if a.ddl is Some && a.ddl->0 is Ok {
            Reply::Rows(a.ddl->0->Ok_0@)
        } else if a.ddl is Some {
            Reply::Error(dispatch::ddl_error(a.ddl->0->Err_0))
        } else if a.quota is Err {
            Reply::Error(
                ApiErrorView::RateLimited { message: a.quota->Err_0.text@, retry_after_secs: 1 },
            )
        } else if a.plans is Err {
            Reply::Error(materialized::reported(a.plans->Err_0))
        } else {
            materialized::rows_after(Seq::empty(), a.outcomes.take(a.plans->Ok_0@.len() as int))
        }),
{
}

/// The rows of a payload, where it can be shaped: none of an empty one, and a text passed through is
/// one row.
pub open spec fn rows_in<R>(payload: ShapedPayload<R>) -> Seq<R> {
    match payload {
        ShapedPayload::Empty => Seq::empty(),
        ShapedPayload::Rows(rows) => rows@,
        ShapedPayload::Passthrough(row) => seq![row],
        ShapedPayload::Failed(_) => Seq::empty(),
    }
}

/// The rows of a task, where it went well: those of its payloads, one after the other.
pub open spec fn rows_of_task<R>(outcome: TaskOutcome<R>) -> Seq<R> {
    match outcome {
        TaskOutcome::Failed(_) => Seq::empty(),
        TaskOutcome::Payloads(payloads) => payloads@.map_values(
            |p: ShapedPayload<R>| rows_in(p),
        ).flatten(),
        TaskOutcome::Response { payload, .. } => rows_in(payload),
    }
}

/// Why a task failed: because it could not be run, because its response is no success, or because its
/// first payload that cannot be shaped cannot.
pub open spec fn task_fails_with<R>(outcome: TaskOutcome<R>, error: ApiErrorView) -> bool {
    match outcome {
        TaskOutcome::Failed(e) => error == ApiErrorView::HttpStatus(e.status, e.message@),
        TaskOutcome::Payloads(payloads) => exists|i: int|
            0 <= i < payloads@.len() && (#[trigger] payloads@[i] matches ShapedPayload::Failed(m)
                && error == ApiErrorView::Internal(m@)) && forall|j: int|
                0 <= j < i ==> !(#[trigger] payloads@[j] is Failed),
        TaskOutcome::Response { ok, error_code, payload } => if ok {
            payload matches ShapedPayload::Failed(m) && error == ApiErrorView::Internal(m@)
        } else {
            error == dispatch::failed_response(error_code)
        },
    }
}

/// Whether a task went well: it could be run, its response is a success, and each of its payloads can
/// be shaped.
pub open spec fn went_well<R>(outcome: TaskOutcome<R>) -> bool {
    match outcome {
        TaskOutcome::Failed(_) => false,
        TaskOutcome::Payloads(payloads) => forall|i: int|
            0 <= i < payloads@.len() ==> !(#[trigger] payloads@[i] is Failed),
        TaskOutcome::Response { ok, payload, .. } => ok && !(payload is Failed),
    }
}

proof fn lemma_with_payload<R>(rows: Seq<R>, payload: ShapedPayload<R>)
    ensures
        payload matches ShapedPayload::Failed(m) ==> materialized::with_payload(rows, payload)
            == Reply::<R>::Error(ApiErrorView::Internal(m@)),
        !(payload is Failed) ==> materialized::with_payload(rows, payload) == Reply::Rows(
            rows + rows_in(payload),
        ),
{
    match payload {
        ShapedPayload::Empty => {
            assert(rows + rows_in(payload) =~= rows);
        },
        ShapedPayload::Passthrough(row) => {
            assert(rows + rows_in(payload) =~= rows.push(row));
        },
        _ => {},
    }
}

proof fn lemma_with_payloads<R>(rows: Seq<R>, payloads: Seq<ShapedPayload<R>>)
    ensures
        (forall|i: int| 0 <= i < payloads.len() ==> !(#[trigger] payloads[i] is Failed))
            ==> materialized::with_payloads(rows, payloads) == Reply::Rows(
            rows + payloads.map_values(|p: ShapedPayload<R>| rows_in(p)).flatten(),
        ),
        forall|i: int|
            0 <= i < payloads.len() && #[trigger] payloads[i] is Failed && (forall|j: int|
                0 <= j < i ==> !(#[trigger] payloads[j] is Failed)) ==> materialized::with_payloads(
                rows,
                payloads,
            ) == Reply::<R>::Error(ApiErrorView::Internal(payloads[i]->Failed_0@)),
    decreases payloads.len(),
{
    let f = |p: ShapedPayload<R>| rows_in(p);
    if payloads.len() == 0 {
        assert(payloads.map_values(f) =~= Seq::empty());
        assert(rows + payloads.map_values(f).flatten() =~= rows);
    } else {
        let before = payloads.drop_last();
        let last = payloads.last();
        assert(forall|k: int| 0 <= k < before.len() ==> before[k] == payloads[k]);
        lemma_with_payloads(rows, before);
        if forall|i: int| 0 <= i < payloads.len() ==> !(#[trigger] payloads[i] is Failed) {
            assert forall|i: int| 0 <= i < before.len() implies !(#[trigger] before[i] is Failed) by {
                assert(!(payloads[i] is Failed));
            }
            assert(!(payloads[payloads.len() - 1] is Failed));
            let some = rows + before.map_values(f).flatten();
            lemma_with_payload(some, last);
            assert(payloads.map_values(f) =~= before.map_values(f).push(rows_in(last)));
            before.map_values(f).lemma_flatten_push(rows_in(last));
            assert(some + rows_in(last) =~= rows + payloads.map_values(f).flatten());
        }
        assert forall|i: int|
            0 <= i < payloads.len() && #[trigger] payloads[i] is Failed && (forall|j: int|
                0 <= j < i ==> !(#[trigger] payloads[j] is Failed)) implies materialized::with_payloads(
            rows,
            payloads,
        ) == Reply::<R>::Error(ApiErrorView::Internal(payloads[i]->Failed_0@)) by {
            if i < before.len() {
                assert(before[i] is Failed);
                assert forall|j: int| 0 <= j < i implies !(#[trigger] before[j] is Failed) by {
                    assert(!(payloads[j] is Failed));
                }
            } else {
                assert forall|j: int| 0 <= j < before.len() implies !(
                #[trigger] before[j] is Failed) by {
                    assert(!(payloads[j] is Failed));
                }
                lemma_with_payload(rows + before.map_values(f).flatten(), last);
            }
        }
    }
}

/// A task that went well adds its rows behind those that there are; any other ends the statement with
/// why it failed.
pub proof fn law_what_a_task_adds<R>(rows: Seq<R>, outcome: TaskOutcome<R>)
    ensures
        went_well(outcome) ==> materialized::with_outcome(rows, outcome) == Reply::Rows(
            rows + rows_of_task(outcome),
        ),
        !went_well(outcome) ==> (materialized::with_outcome(rows, outcome) matches Reply::Error(e)
            && task_fails_with(outcome, e)),
{
    match outcome {
        TaskOutcome::Payloads(payloads) => {
            lemma_with_payloads(rows, payloads@);
            if !went_well(outcome) {
                let k = choose|k: int| 0 <= k < payloads@.len() && #[trigger] payloads@[k] is Failed;
                let i = lemma_first_failure(payloads@, k);
                assert(payloads@[i] is Failed);
            }
        },
        TaskOutcome::Response { ok, error_code, payload } => {
            lemma_with_payload(rows, payload);
        },
        _ => {},
    }
}

proof fn lemma_first_failure<R>(payloads: Seq<ShapedPayload<R>>, k: int) -> (i: int)
    requires
        0 <= k < payloads.len(),
        payloads[k] is Failed,
    ensures
        0 <= i <= k,
        payloads[i] is Failed,
        forall|j: int| 0 <= j < i ==> !(#[trigger] payloads[j] is Failed),
    decreases k,
{
    if exists|j: int| 0 <= j < k && #[trigger] payloads[j] is Failed {
        let j = choose|j: int| 0 <= j < k && #[trigger] payloads[j] is Failed;
        lemma_first_failure(payloads, j)
    } else {
        k
    }
}

/// A statement whose tasks all went well is answered with the rows of all of them, in their order.
pub proof fn law_all_rows_are_answered<R>(rows: Seq<R>, outcomes: Seq<TaskOutcome<R>>)
    requires
        forall|i: int| 0 <= i < outcomes.len() ==> went_well(#[trigger] outcomes[i]),
    ensures
        materialized::rows_after(rows, outcomes) == Reply::Rows(
            rows + outcomes.map_values(|o: TaskOutcome<R>| rows_of_task(o)).flatten(),
        ),
    decreases outcomes.len(),
{
    let f = |o: TaskOutcome<R>| rows_of_task(o);
    let all = outcomes.map_values(f);
    if outcomes.len() == 0 {
        assert(all =~= Seq::empty());
        assert(rows + all.flatten() =~= rows);
    } else {
        let first = outcomes.first();
        let rest = outcomes.drop_first();
        assert(went_well(outcomes[0]));
        assert forall|i: int| 0 <= i < rest.len() implies went_well(#[trigger] rest[i]) by {
            assert(rest[i] == outcomes[i + 1]);
        }
        law_what_a_task_adds(rows, first);
        law_all_rows_are_answered(rows + rows_of_task(first), rest);
        assert(all.first() == rows_of_task(first));
        assert(all.drop_first() =~= rest.map_values(f));
        assert(all.flatten() == rows_of_task(first) + rest.map_values(f).flatten());
        assert(rows + rows_of_task(first) + rest.map_values(f).flatten() =~= rows + all.flatten());
    }
}

/// A statement with a task that failed is answered with why the first such did, whatever came before
/// and would come after.
pub proof fn law_the_first_failure_is_answered<R>(
    rows: Seq<R>,
    outcomes: Seq<TaskOutcome<R>>,
    i: int,
)
    requires
        0 <= i < outcomes.len(),
        !went_well(outcomes[i]),
        forall|j: int| 0 <= j < i ==> went_well(#[trigger] outcomes[j]),
    ensures
        materialized::rows_after(rows, outcomes) matches Reply::Error(e) && task_fails_with(
            outcomes[i],
            e,
        ),
    decreases i,
{
    law_what_a_task_adds(rows, outcomes.first());
    if i > 0 {
        let rest = outcomes.drop_first();
        assert(went_well(outcomes[0]));
        assert(rest[i - 1] == outcomes[i]);
        assert forall|j: int| 0 <= j < i - 1 implies went_well(#[trigger] rest[j]) by {
            assert(rest[j] == outcomes[j + 1]);
        }
        law_the_first_failure_is_answered(rows + rows_of_task(outcomes.first()), rest, i - 1);
    }
}

/// The answer in lines to a statement is what the first of these comes to that decides: who asks, the
/// database, the right to it, whether there is a statement, the quota, the planner, the stream; and
/// where no stream is opened, the lines of its tasks.
pub proof fn law_what_decides_an_answer_in_lines(
    known: Result<(AuthenticatedIdentity, AuthContext), ApiError>,
    sql: Seq<char>,
    a: NdjsonAnswers,
)
    ensures
        ndjson::answer(known, sql, a) == (if known is Err {
            NdjsonReplyView::Error(known->Err_0@)
        } else if a.database is Err {
            NdjsonReplyView::Error(a.database->Err_0@)
        } else if a.authorized is Err {
            NdjsonReplyView::Error(materialized::reported(a.authorized->Err_0))
        } else if text::trimmed(sql).len() == 0 {
            NdjsonReplyView::EmptySql
        } else if a.quota is Err {
            NdjsonReplyView::QuotaExceeded { body: json::error_object(a.quota->Err_0.text@) }
        } else if a.plans is Err {
            NdjsonReplyView::Error(materialized::reported(a.plans->Err_0))
        } else if a.stream is Err {
            NdjsonReplyView::Error(materialized::reported(a.stream->Err_0))
        } else if a.stream->Ok_0 {
            NdjsonReplyView::Stream
        } else {
            NdjsonReplyView::Body(
                ndjson::outcomes_lines(a.outcomes.take(a.plans->Ok_0@.len() as int)),
            )
        }),
{
}

/// The object that reports an error has one member, called `error`, with the message as a string; in
/// an answer it stands on a line of its own.
pub proof fn law_how_errors_are_written(message: Seq<char>)
    ensures
        json::error_object(message) == "{\"error\":"@ + json::quoted(message) + "}"@,
        ndjson::error_line(message) == json::error_object(message) + seq!['\n'],
{
    reveal_strlit("\n");
    assert("\n"@ =~= seq!['\n']);
}

/// Each row is written on a line of its own, in the order of the rows.
pub proof fn law_each_row_has_its_line(rows: Seq<String>)
    ensures
        ndjson::row_lines(rows) == rows.map_values(|r: String| r@ + seq!['\n']).flatten(),
    decreases rows.len(),
{
    reveal_strlit("\n");
    assert("\n"@ =~= seq!['\n']);
    let f = |r: String| r@ + seq!['\n'];
    if rows.len() == 0 {
        assert(rows.map_values(f) =~= Seq::empty());
        assert(rows.map_values(f).flatten() =~= Seq::empty());
    } else {
        let before = rows.drop_last();
        law_each_row_has_its_line(before);
        assert(rows.map_values(f) =~= before.map_values(f).push(f(rows.last())));
        before.map_values(f).lemma_flatten_push(f(rows.last()));
        assert(before.map_values(f).flatten() + rows.last()@ + "\n"@ =~= before.map_values(
            f,
        ).flatten() + (rows.last()@ + seq!['\n']));
    }
}

/// What a payload adds to an answer: nothing where it is empty, the lines of its rows, the text as it
/// stands where it is passed through, and a line with the error where it cannot be shaped.
pub open spec fn lines_in(payload: ShapedLines) -> Seq<char> {
    match payload {
        ShapedLines::Empty => Seq::empty(),
        ShapedLines::Rows(rows) => rows@.map_values(|r: String| r@ + seq!['\n']).flatten(),
        ShapedLines::Passthrough(text) => text@,
        ShapedLines::Failed(message) => json::error_object(message@) + seq!['\n'],
    }
}

/// What a task adds to an answer: what its payloads add, one after the other, or a line with the error
/// where it could not be run.
pub open spec fn lines_of_task(outcome: LinesOutcome) -> Seq<char> {
    match outcome {
        LinesOutcome::Failed(message) => json::error_object(message@) + seq!['\n'],
        LinesOutcome::Payloads(payloads) => payloads@.map_values(
            |p: ShapedLines| lines_in(p),
        ).flatten(),
    }
}

proof fn lemma_payloads_lines(payloads: Seq<ShapedLines>)
    ensures
        ndjson::payloads_lines(payloads) == payloads.map_values(
            |p: ShapedLines| lines_in(p),
        ).flatten(),
    decreases payloads.len(),
{
    let f = |p: ShapedLines| lines_in(p);
    if payloads.len() == 0 {
        assert(payloads.map_values(f) =~= Seq::empty());
        assert(payloads.map_values(f).flatten() =~= Seq::empty());
    } else {
        let before = payloads.drop_last();
        let last = payloads.last();
        lemma_payloads_lines(before);
        match last {
            ShapedLines::Rows(rows) => {
                law_each_row_has_its_line(rows@);
            },
            ShapedLines::Failed(message) => {
                law_how_errors_are_written(message@);
            },
            _ => {},
        }
        assert(payloads.map_values(f) =~= before.map_values(f).push(f(last)));
        before.map_values(f).lemma_flatten_push(f(last));
    }
}

/// An answer in lines holds what each task adds, in the order of the tasks, those that failed and
/// those after them as well.
pub proof fn law_every_task_adds_its_lines(outcomes: Seq<LinesOutcome>)
    ensures
        ndjson::outcomes_lines(outcomes) == outcomes.map_values(
            |o: LinesOutcome| lines_of_task(o),
        ).flatten(),
    decreases outcomes.len(),
{
    let f = |o: LinesOutcome| lines_of_task(o);
    let all = outcomes.map_values(f);
    if outcomes.len() == 0 {
        assert(all =~= Seq::empty());
        assert(all.flatten() =~= Seq::empty());
    } else {
        law_every_task_adds_its_lines(outcomes.drop_first());
        match outcomes.first() {
            LinesOutcome::Failed(message) => {
                law_how_errors_are_written(message@);
            },
            LinesOutcome::Payloads(payloads) => {
                lemma_payloads_lines(payloads@);
            },
        }
        assert(all.first() == lines_of_task(outcomes.first()));
        assert(all.drop_first() =~= outcomes.drop_first().map_values(f));
    }
}

/// How each answer is sent: lines, streamed or not, as newline-delimited JSON with status 200; no
/// statement as the text `empty SQL` with status 400; a quota exceeded as JSON with status 429, to be
/// tried again after a second; an error as JSON with its own status and message.
pub proof fn law_how_answers_are_sent(e: ApiErrorView, body: Seq<char>)
    ensures
        ndjson::reply_status(NdjsonReplyView::Body(body)) == 200,
        ndjson::reply_type(NdjsonReplyView::Body(body)) == "application/x-ndjson"@,
        ndjson::reply_body(NdjsonReplyView::Body(body)) == BodyView::Text(body),
        ndjson::reply_retry(NdjsonReplyView::Body(body)) is None,
        ndjson::reply_status(NdjsonReplyView::Stream) == 200,
        ndjson::reply_type(NdjsonReplyView::Stream) == "application/x-ndjson"@,
        ndjson::reply_body(NdjsonReplyView::Stream) == BodyView::Stream,
        ndjson::reply_retry(NdjsonReplyView::Stream) is None,
        ndjson::reply_status(NdjsonReplyView::EmptySql) == 400,
        ndjson::reply_type(NdjsonReplyView::EmptySql) == "text/plain; charset=utf-8"@,
        ndjson::reply_body(NdjsonReplyView::EmptySql) == BodyView::Text("empty SQL"@),
        ndjson::reply_retry(NdjsonReplyView::EmptySql) is None,
        ndjson::reply_status(NdjsonReplyView::QuotaExceeded { body }) == 429,
        ndjson::reply_type(NdjsonReplyView::QuotaExceeded { body }) == "application/json"@,
        ndjson::reply_body(NdjsonReplyView::QuotaExceeded { body }) == BodyView::Text(body),
        ndjson::reply_retry(NdjsonReplyView::QuotaExceeded { body }) == Some("1"@),
        ndjson::reply_status(NdjsonReplyView::Error(e)) == auth::status_of(e),
        ndjson::reply_type(NdjsonReplyView::Error(e)) == "application/json"@,
        ndjson::reply_body(NdjsonReplyView::Error(e)) == BodyView::Error(auth::message_of(e)),
        ndjson::reply_retry(NdjsonReplyView::Error(e)) == (match e {
            ApiErrorView::RateLimited { retry_after_secs, .. } => Some(
                text::decimal(retry_after_secs as nat),
            ),
            _ => None,
        }),
{
}

/// An answer is told apart by its kind and by what it holds.
pub proof fn law_an_answer_is_what_it_holds(reply: NdjsonReply)
    ensures
        match reply {
            NdjsonReply::Error(e) => reply@ == NdjsonReplyView::Error(e@),
            NdjsonReply::EmptySql => reply@ == NdjsonReplyView::EmptySql,
            NdjsonReply::QuotaExceeded { body } => reply@ == (NdjsonReplyView::QuotaExceeded {
                body: body@,
            }),
            NdjsonReply::Stream => reply@ == NdjsonReplyView::Stream,
            NdjsonReply::Body(body) => reply@ == NdjsonReplyView::Body(body@),
        },
{
}

/// A task is run by the route of its own plan.
pub proof fn law_tasks_take_their_own_routes<R>(
    run: materialized::Running<R>,
    lines: ndjson::RunningLines,
    route: dispatch::TaskRoute,
    gateway: bool,
)
    ensures
        materialized::runnable(run, route, gateway) <==> run.next < run.plans@.len() && route
            == dispatch::route_of(run.plans@[run.next as int], gateway),
        ndjson::runnable(lines, route, gateway) <==> lines.next < lines.plans@.len() && route
            == dispatch::route_of(lines.plans@[lines.next as int], gateway),
{
}

/// The body of a response is told apart by its kind and by what it holds.
pub proof fn law_a_body_is_what_it_holds(body: ndjson::ResponseBody)
    ensures
        match body {
            ndjson::ResponseBody::Error(message) => body@ == BodyView::Error(message@),
            ndjson::ResponseBody::Text(text) => body@ == BodyView::Text(text@),
            ndjson::ResponseBody::Stream => body@ == BodyView::Stream,
        },
{
}

} // verus!
