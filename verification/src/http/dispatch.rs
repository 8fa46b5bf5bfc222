//! What both ways of running a statement over HTTP share.

use vstd::prelude::*;

use super::auth::{ApiError, ApiErrorView, AuthContext};
use super::headers;
use super::headers::{HeaderText, HeaderTextView};
use crate::identity::{AuthenticatedIdentity, DatabaseId};
use crate::plan::physical::{DocumentOp, PhysicalPlan};

verus! {

/// Who runs a task.
#[derive(Debug, Clone, Copy, PartialEq, Eq, Structural)]
pub enum TaskRoute {
    /// The orchestrator of `INSERT ... SELECT`, which gives each row a surrogate of its own.
    InsertSelect,
    /// The orchestrator of `MERGE`.
    Merge,
    /// The orchestrator of `UPDATE ... FROM`.
    UpdateFromJoin,
    /// The gateway to the cluster.
    Gateway,
    /// The node itself, as long as there is no gateway.
    Local,
}

/// Who runs a plan. A merge or an update from a join goes to its orchestrator only where it is to
/// be applied and what the orchestrator works out is not in the plan yet.
pub open spec fn route_of(plan: PhysicalPlan, gateway: bool) -> TaskRoute {
    match plan {
        PhysicalPlan::Document(DocumentOp::InsertSelect) => TaskRoute::InsertSelect,
        PhysicalPlan::Document(
            DocumentOp::Merge { resolve_only: false, resolved_inserts: false },
        ) => TaskRoute::Merge,
        PhysicalPlan::Document(
            DocumentOp::UpdateFromJoin { resolve_only: false, source_rows: false, .. },
        ) => TaskRoute::UpdateFromJoin,
        _ => if gateway {
            TaskRoute::Gateway
        } else {
            TaskRoute::Local
        },
    }
}

/// Who runs a plan.
pub fn route_task(plan: &PhysicalPlan, gateway: bool) -> (r: TaskRoute)
    ensures
        r == route_of(*plan, gateway),
{
    match plan {
        PhysicalPlan::Document(DocumentOp::InsertSelect) => {
            return TaskRoute::InsertSelect;
        },
        PhysicalPlan::Document(DocumentOp::Merge { resolve_only, resolved_inserts }) => {
            if !*resolve_only && !*resolved_inserts {
                return TaskRoute::Merge;
            }
        },
        PhysicalPlan::Document(
            DocumentOp::UpdateFromJoin { returning: _, resolve_only, source_rows },
        ) => {
            if !*resolve_only && !*source_rows {
                return TaskRoute::UpdateFromJoin;
            }
        },
        _ => {},
    }
    if gateway {
        TaskRoute::Gateway
    } else {
        TaskRoute::Local
    }
}

/// Which database a request asks for.
pub enum DatabaseChoice {
    Named(String),
    /// It asks for none.
    Unnamed,
    /// It asks in a header that is no text.
    Unreadable,
}

/// Which database a request asks for, the name taken by its text.
pub enum ChoiceView {
    Named(Seq<char>),
    Unnamed,
    Unreadable,
}

impl View for DatabaseChoice {
    type V = ChoiceView;

    open spec fn view(&self) -> ChoiceView {
        match self {
            DatabaseChoice::Named(name) => ChoiceView::Named(name@),
            DatabaseChoice::Unnamed => ChoiceView::Unnamed,
            DatabaseChoice::Unreadable => ChoiceView::Unreadable,
        }
    }
}

/// Which database a request asks for: the one that the header names, whatever the parameter; where
/// there is no such header, the one that the parameter names.
pub open spec fn database_asked_for(
    header: HeaderTextView,
    parameter: Option<Seq<char>>,
) -> ChoiceView {
    match header {
        HeaderTextView::Text(name) => ChoiceView::Named(name),
        HeaderTextView::NotText => ChoiceView::Unreadable,
        HeaderTextView::Missing => match parameter {
            Some(name) => ChoiceView::Named(name),
            None => ChoiceView::Unnamed,
        },
    }
}

/// The text of an optional string.
pub open spec fn optional_text(text: Option<String>) -> Option<Seq<char>> {
    match text {
        Some(text) => Some(text@),
        None => None,
    }
}

/// Which database a request with these headers and this `database` parameter asks for.
pub open spec fn chosen_database(
    headers: axum::http::HeaderMap<axum::http::HeaderValue>,
    parameter: Option<String>,
) -> ChoiceView {
    database_asked_for(
        headers::text_of_header(headers, "x-nodedb-database"@),
        optional_text(parameter),
    )
}

/// Which database a request asks for, given its header and its parameter.
pub fn database_name(header: HeaderText, parameter: Option<String>) -> (r: DatabaseChoice)
    ensures
        r@ == database_asked_for(header@, optional_text(parameter)),
{
    match header {
        HeaderText::Text(name) => DatabaseChoice::Named(name),
        HeaderText::NotText => DatabaseChoice::Unreadable,
        HeaderText::Missing => match parameter {
            Some(name) => DatabaseChoice::Named(name),
            None => DatabaseChoice::Unnamed,
        },
    }
}

/// Which database a request asks for with its `X-NodeDB-Database` header or, without one, with its
/// `database` parameter.
pub fn choose_database(
    headers: &axum::http::HeaderMap<axum::http::HeaderValue>,
    parameter: Option<String>,
) -> (r: DatabaseChoice)
    ensures
        r@ == chosen_database(*headers, parameter),
{
    proof {
        reveal_strlit("x-nodedb-database");
    }
    database_name(headers::read_header(headers, "x-nodedb-database"), parameter)
}

/// A request of which it is known who it comes from.
pub struct Authenticated {
    pub identity: AuthenticatedIdentity,
    pub auth_ctx: AuthContext,
    pub sql: String,
}

/// A request whose database has been selected.
pub struct Selected {
    pub request: Authenticated,
    pub database_id: DatabaseId,
}

/// The request with its database made known to row-level security.
pub open spec fn scoped(s: Selected) -> Selected {
    Selected {
        request: Authenticated {
            auth_ctx: AuthContext {
                database_id: Some(s.database_id),
                ..s.request.auth_ctx
            },
            ..s.request
        },
        ..s
    }
}

/// Makes the database of a request known to row-level security. The database that was selected
/// counts, whatever the token said.
pub fn scope_to_database(s: Selected) -> (r: Selected)
    ensures
        r == scoped(s),
{
    let mut s = s;
    s.request.auth_ctx.database_id = Some(s.database_id);
    s
}

/// An error of the data definition commands.
pub struct DdlError {
    pub sqlstate: String,
    pub message: String,
}

/// How an error of the data definition commands is reported: a missing privilege is forbidden,
/// anything else is a bad request.
pub open spec fn ddl_error(error: DdlError) -> ApiErrorView {
    if error.sqlstate@ == "42501"@ {
        ApiErrorView::Forbidden(error.message@)
    } else {
        ApiErrorView::BadRequest(error.message@)
    }
}

/// How an error of the data definition commands is reported.
pub fn ddl_error_to_api(error: DdlError) -> (r: ApiError)
    ensures
        r@ == ddl_error(error),
{
    if crate::text::same_text(error.sqlstate.as_str(), "42501") {
        ApiError::Forbidden(error.message)
    } else {
        ApiError::BadRequest(error.message)
    }
}

/// An error of whoever ran a task, as the gateway reports it over HTTP.
pub struct GatewayError {
    pub status: u16,
    pub message: String,
}

/// How an error of whoever ran a task is reported.
pub fn gateway_error(error: GatewayError) -> (r: ApiError)
    ensures
        r == ApiError::HttpStatus(error.status, error.message),
{
    ApiError::HttpStatus(error.status, error.message)
}

/// How a response is reported that is no success: by its error code, if it has one.
pub open spec fn failed_response(error_code: Option<String>) -> ApiErrorView {
    match error_code {
        Some(code) => ApiErrorView::Internal(code@),
        None => ApiErrorView::Internal("unknown error"@),
    }
}

/// How a response is reported that is no success.
pub fn response_error(error_code: Option<String>) -> (r: ApiError)
    ensures
        r@ == failed_response(error_code),
{
    match error_code {
        Some(code) => ApiError::Internal(code),
        None => ApiError::Internal("unknown error".to_owned()),
    }
}

} // verus!
