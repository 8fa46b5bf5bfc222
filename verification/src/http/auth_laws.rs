//! What the way a request is authenticated promises.

use vstd::prelude::*;

use super::auth;
use super::auth::{
    ApiError, ApiErrorView, AppState, AuthContext, AuthMode, AuthStep, Credentials,
    CredentialsView, DenyMode, Findings, IdentityStep, OnDeny, ResolvedView,
};
use super::dispatch;
use super::dispatch::{ChoiceView, DatabaseChoice, DdlError, Selected, TaskRoute};
use super::headers;
use super::headers::{HeaderText, HeaderTextView};
use super::materialized;
use crate::error::{Error, ErrorKind};
use crate::identity;
use crate::identity::{AuthenticatedIdentity, DatabaseId, DatabaseSet, Role, RoleView};
use crate::lists;
use crate::plan::physical::{DocumentOp, PhysicalPlan};
use crate::text;

verus! {

/// At which places of a text a dot stands.
pub open spec fn dot_at(s: Seq<char>) -> spec_fn(int) -> bool {
    |k: int| s[k] == '.'
}

/// Whether exactly two characters of a text are dots.
pub open spec fn two_dots(s: Seq<char>) -> bool {
    lists::count(dot_at(s), s.len()) == 2
}

proof fn lemma_dots(s: Seq<char>, n: nat)
    requires
        n <= s.len(),
    ensures
        auth::times(s.take(n as int), '.') == lists::count(dot_at(s), n),
    decreases n,
{
    let dot = text::only('.');
    if n > 0 {
        lemma_dots(s, (n - 1) as nat);
        let before = s.take(n - 1);
        assert(s.take(n as int) =~= before.push(s[n - 1]));
        before.lemma_filter_push(s[n - 1], dot);
        assert(dot_at(s)(n - 1) == dot(s[n - 1]));
    } else {
        reveal(Seq::filter);
        assert(s.take(0).filter(dot) =~= Seq::empty());
    }
}

/// A token has the form of a JWT exactly if two of its characters are dots.
pub proof fn law_jwts_have_two_dots(token: Seq<char>)
    ensures
        auth::looks_like_jwt(token) <==> two_dots(token),
{
    lemma_dots(token, token.len());
    assert(token.take(token.len() as int) =~= token);
}

/// What comes behind `Bearer ` in an `Authorization` header is a token, without the white space
/// around it. A header that begins otherwise, or none, names no token; one that is no text cannot be
/// read.
pub proof fn law_how_tokens_are_named(value: Seq<char>, token: Seq<char>)
    ensures
        auth::credentials_in(HeaderTextView::Text("Bearer "@ + token)) == CredentialsView::Bearer(
            text::trimmed(token),
        ),
        !"Bearer "@.is_prefix_of(value) ==> auth::credentials_in(HeaderTextView::Text(value))
            == CredentialsView::Nothing,
        auth::credentials_in(HeaderTextView::Missing) == CredentialsView::Nothing,
        auth::credentials_in(HeaderTextView::NotText) == CredentialsView::Unreadable,
{
    reveal_strlit("Bearer ");
    let header = "Bearer "@ + token;
    assert("Bearer "@ =~= header.subrange(0, 7));
    assert(header.skip(7) =~= token);
}

/// Where a request comes from is read from its `Authorization` header, and its database from its
/// `X-NodeDB-Database` header, whose first values count.
pub proof fn law_which_headers_are_read(
    request: axum::http::HeaderMap<axum::http::HeaderValue>,
    parameter: Option<String>,
    name: Seq<char>,
)
    ensures
        auth::credentials_of(request) == auth::credentials_in(
            headers::text_of_header(request, "authorization"@),
        ),
        dispatch::chosen_database(request, parameter) == dispatch::database_asked_for(
            headers::text_of_header(request, "x-nodedb-database"@),
            if parameter is Some {
                Some(parameter->0@)
            } else {
                None
            },
        ),
        !headers::header_values(request).contains_key(name) ==> headers::text_of_header(
            request,
            name,
        ) == HeaderTextView::Missing,
        headers::header_values(request).contains_key(name) ==> {
            let value = headers::header_values(request)[name].first();
            &&& (forall|i: int|
                0 <= i < value.len() ==> 32 <= #[trigger] value[i] < 127 || value[i] == 9)
                ==> headers::text_of_header(request, name) == HeaderTextView::Text(
                Seq::new(value.len(), |i: int| value[i] as char),
            )
            &&& (exists|i: int|
                0 <= i < value.len() && !(32 <= #[trigger] value[i] < 127 || value[i] == 9))
                ==> headers::text_of_header(request, name) == HeaderTextView::NotText
        },
{
    if headers::header_values(request).contains_key(name) {
        let value = headers::header_values(request)[name].first();
        let chars = value.map_values(|b: u8| b as char);
        assert(chars =~= Seq::new(value.len(), |i: int| value[i] as char));
        if exists|i: int|
            0 <= i < value.len() && !(32 <= #[trigger] value[i] < 127 || value[i] == 9) {
            let i = choose|i: int|
                0 <= i < value.len() && !(32 <= #[trigger] value[i] < 127 || value[i] == 9);
            assert(!headers::visible(value[i]));
        }
    }
}

/// Who a request comes from. A token in the form of a JWT is taken for whom the registry of keys says,
/// where there is one and it says so; any other token, and one that the registry does not take, for
/// the owner of the API key; no token for the trust identity, where the server trusts its clients.
pub proof fn law_who_a_request_comes_from(token: Seq<char>, state: AppState, f: Findings)
    ensures
        two_dots(token) && state.jwks_registry && f.jwt is Some ==> auth::who(
            CredentialsView::Bearer(token),
            state,
            f,
        ) == ResolvedView::Known(f.jwt->0),
        !(two_dots(token) && state.jwks_registry && f.jwt is Some) && f.api_key is Some
            ==> auth::who(CredentialsView::Bearer(token), state, f) == ResolvedView::Known(
            f.api_key->0,
        ),
        !(two_dots(token) && state.jwks_registry && f.jwt is Some) && f.api_key is None
            ==> auth::who(CredentialsView::Bearer(token), state, f) == ResolvedView::Unknown(
            ApiErrorView::Unauthorized("invalid bearer token"@),
        ),
        state.auth_mode == AuthMode::Trust && f.trust_identity is Some ==> auth::who(
            CredentialsView::Nothing,
            state,
            f,
        ) == ResolvedView::Known(f.trust_identity->0),
        state.auth_mode == AuthMode::Trust && f.trust_identity is None ==> auth::who(
            CredentialsView::Nothing,
            state,
            f,
        ) == ResolvedView::Unknown(
            ApiErrorView::Unauthorized("configured trust identity is unavailable"@),
        ),
        state.auth_mode != AuthMode::Trust ==> auth::who(CredentialsView::Nothing, state, f)
            == ResolvedView::Unknown(
            ApiErrorView::Unauthorized("missing Authorization: Bearer <token> header"@),
        ),
        auth::who(CredentialsView::Unreadable, state, f) == ResolvedView::Unknown(
            ApiErrorView::Unauthorized("invalid authorization header encoding"@),
        ),
{
    law_jwts_have_two_dots(token);
}

/// What each service finds decides where it is asked, and no other has a say: the registry of keys,
/// and the API keys behind it, then the API keys, then the trust identity.
pub proof fn law_findings_decide_where_they_are_asked_for(
    token: String,
    peer_addr: String,
    done: Result<AuthenticatedIdentity, ApiError>,
    f: Findings,
)
    ensures
        auth::identity_settled(IdentityStep::Done(done), f) == (match done {
            Ok(identity) => ResolvedView::Known(identity),
            Err(e) => ResolvedView::Unknown(e@),
        }),
        auth::identity_settled(IdentityStep::CheckJwt { token, peer_addr }, f) == (if f.jwt is Some {
            ResolvedView::Known(f.jwt->0)
        } else {
            auth::identity_settled(IdentityStep::CheckApiKey { token, peer_addr }, f)
        }),
        auth::identity_settled(IdentityStep::CheckApiKey { token, peer_addr }, f) == (
        if f.api_key is Some {
            ResolvedView::Known(f.api_key->0)
        } else {
            ResolvedView::Unknown(ApiErrorView::Unauthorized("invalid bearer token"@))
        }),
        auth::identity_settled(IdentityStep::FindTrustIdentity, f) == (
        if f.trust_identity is Some {
            ResolvedView::Known(f.trust_identity->0)
        } else {
            ResolvedView::Unknown(
                ApiErrorView::Unauthorized("configured trust identity is unavailable"@),
            )
        }),
{
}

/// Which service is asked first: the registry of keys for a token in the form of a JWT, where there is
/// one, the API keys for any other token, and the trust identity for no token, where the server trusts
/// its clients. Everything else is refused at once.
pub proof fn law_which_service_is_asked_first(
    step: IdentityStep,
    credentials: CredentialsView,
    state: AppState,
    peer: Seq<char>,
)
    requires
        auth::finds(step, credentials, state, peer),
    ensures
        match credentials {
            CredentialsView::Bearer(token) => if two_dots(token) && state.jwks_registry {
                step matches IdentityStep::CheckJwt { token: asked, peer_addr } && asked@ == token
                    && peer_addr@ == peer
            } else {
                step matches IdentityStep::CheckApiKey { token: asked, peer_addr } && asked@ == token
                    && peer_addr@ == peer
            },
            CredentialsView::Nothing => if state.auth_mode == AuthMode::Trust {
                step is FindTrustIdentity
            } else {
                step matches IdentityStep::Done(Err(e)) && e@ == ApiErrorView::Unauthorized(
                    "missing Authorization: Bearer <token> header"@,
                )
            },
            CredentialsView::Unreadable => step matches IdentityStep::Done(Err(e)) && e@
                == ApiErrorView::Unauthorized("invalid authorization header encoding"@),
        },
{
    let known = arbitrary::<AuthenticatedIdentity>();
    let other = AuthenticatedIdentity {
        user_id: if known.user_id == 0 {
            1
        } else {
            0
        },
        ..known
    };
    let nobody = Findings { jwt: None, api_key: None, trust_identity: None };
    let by_jwt = Findings { jwt: Some(known), ..nobody };
    let by_key = Findings { api_key: Some(known), ..nobody };
    let by_trust = Findings { trust_identity: Some(known), ..nobody };
    let by_other = Findings { jwt: Some(other), api_key: Some(other), trust_identity: Some(other) };
    let f = nobody;
    assert(auth::identity_settled(step, f) == auth::who(credentials, state, f));
    let f = by_jwt;
    assert(auth::identity_settled(step, f) == auth::who(credentials, state, f));
    let f = by_key;
    assert(auth::identity_settled(step, f) == auth::who(credentials, state, f));
    let f = by_trust;
    assert(auth::identity_settled(step, f) == auth::who(credentials, state, f));
    let f = by_other;
    assert(auth::identity_settled(step, f) == auth::who(credentials, state, f));
    match credentials {
        CredentialsView::Bearer(token) => {
            law_jwts_have_two_dots(token);
        },
        _ => {},
    }
}

/// Where what is known of a request is asked for as well, the claims of a token in the form of a JWT
/// are checked first, where there is a registry of keys; for anything else the identity is found.
pub proof fn law_claims_are_checked_first(
    step: AuthStep,
    credentials: CredentialsView,
    state: AppState,
    peer: Seq<char>,
)
    requires
        auth::begins_auth(step, credentials, state, peer),
    ensures
        match credentials {
            CredentialsView::Bearer(token) => if two_dots(token) && state.jwks_registry {
                step matches AuthStep::CheckClaims { token: asked } && asked@ == token
            } else {
                step matches AuthStep::FindIdentity(find) && auth::finds(
                    find,
                    credentials,
                    state,
                    peer,
                )
            },
            _ => step matches AuthStep::FindIdentity(find) && auth::finds(
                find,
                credentials,
                state,
                peer,
            ),
        },
{
    match credentials {
        CredentialsView::Bearer(token) => {
            law_jwts_have_two_dots(token);
        },
        _ => {},
    }
}

/// Whether `s` is `word`, which is in small letters, or differs from it in capitals alone.
pub open spec fn is_word(s: Seq<char>, word: Seq<char>) -> bool {
    &&& s.len() == word.len()
    &&& forall|i: int|
        0 <= i < s.len() ==> #[trigger] s[i] == word[i] || (s[i] as u32) + 32 == word[i] as u32
}

proof fn lemma_small_letter(c: char, small: char)
    requires
        97 <= small as u32 <= 122,
    ensures
        text::ascii_lower(c) == small <==> c == small || (c as u32) + 32 == small as u32,
{
}

proof fn lemma_is_word(s: Seq<char>, large: Seq<char>, small: Seq<char>)
    requires
        large.len() == small.len(),
        forall|i: int|
            0 <= i < small.len() ==> 97 <= (#[trigger] small[i]) as u32 <= 122 && 65
                <= large[i] as u32 <= 90 && large[i] as u32 + 32 == small[i] as u32,
    ensures
        text::ascii_lowered(s) == text::ascii_lowered(large) <==> is_word(s, small),
{
    let x = text::ascii_lowered(s);
    let y = text::ascii_lowered(large);
    assert(y =~= small) by {
        assert forall|i: int| 0 <= i < y.len() implies y[i] == small[i] by {
            assert(97 <= small[i] as u32);
            assert(y[i] == text::ascii_lower(large[i]));
            lemma_small_letter(large[i], small[i]);
        }
    }
    if x == y {
        assert(x.len() == s.len());
        assert forall|i: int| 0 <= i < s.len() implies #[trigger] s[i] == small[i] || (s[i] as u32)
            + 32 == small[i] as u32 by {
            assert(x[i] == text::ascii_lower(s[i]));
            assert(x[i] == small[i]);
            assert(97 <= small[i] as u32);
            lemma_small_letter(s[i], small[i]);
        }
    }
    if is_word(s, small) {
        assert forall|i: int| 0 <= i < s.len() implies x[i] == small[i] by {
            assert(97 <= small[i] as u32);
            assert(x[i] == text::ascii_lower(s[i]));
            lemma_small_letter(s[i], small[i]);
            assert(s[i] == small[i] || (s[i] as u32) + 32 == small[i] as u32);
        }
        assert(x =~= small);
    }
}

/// What a client asks for with `X-On-Deny`: `silent` or `error`, in capitals or small letters and with
/// white space around it or not, and nothing with anything else.
pub proof fn law_what_clients_may_ask_for(header: HeaderTextView)
    ensures
        auth::on_deny(header) == (match header {
            HeaderTextView::Text(value) => if is_word(text::trimmed(value), "silent"@) {
                OnDeny::Silent
            } else if is_word(text::trimmed(value), "error"@) {
                OnDeny::Error
            } else {
                OnDeny::Nothing
            },
            _ => OnDeny::Nothing,
        }),
{
    reveal_strlit("SILENT");
    reveal_strlit("silent");
    reveal_strlit("ERROR");
    reveal_strlit("error");
    match header {
        HeaderTextView::Text(value) => {
            lemma_is_word(text::trimmed(value), "SILENT"@, "silent"@);
            lemma_is_word(text::trimmed(value), "ERROR"@, "error"@);
        },
        _ => {},
    }
}

/// What a client asked for is what is done: rows are left out where it asked for silence, the request
/// fails in the server's words where it asked for an error, and nothing changes where it asked for
/// nothing. Nothing else of the context changes.
pub proof fn law_clients_get_what_they_ask_for(before: AuthContext, asked: OnDeny, after: AuthContext)
    requires
        auth::overridden(before, asked, after),
    ensures
        after == (AuthContext { on_deny_override: after.on_deny_override, ..before }),
        asked is Silent ==> after.on_deny_override == Some(DenyMode::Silent),
        asked is Error ==> (after.on_deny_override matches Some(DenyMode::Error(e)) && e.code@
            == "RLS_READ_DENIED"@ && e.message@ == "Access denied by row-level security policy"@
            && e.detail is None),
        asked is Nothing ==> after == before,
{
}

/// How an error of the server is reported: a missing right is forbidden, what is wrong with the
/// request is a bad request, and anything else is internal, each with the text of the error.
pub proof fn law_how_errors_are_reported(e: Error)
    ensures
        materialized::reported(e) == (match e.kind {
            ErrorKind::RejectedAuthz => ApiErrorView::Forbidden(e.text@),
            ErrorKind::BadRequest { .. } => ApiErrorView::BadRequest(e.text@),
            ErrorKind::PlanError => ApiErrorView::BadRequest(e.text@),
            ErrorKind::Config => ApiErrorView::BadRequest(e.text@),
            ErrorKind::CollectionNotFound => ApiErrorView::BadRequest(e.text@),
            ErrorKind::DocumentNotFound => ApiErrorView::BadRequest(e.text@),
            ErrorKind::Other => ApiErrorView::Internal(e.text@),
        }),
{
}

/// The status and the message of each error.
pub proof fn law_which_status_errors_have(m: Seq<char>, secs: u64, code: u16)
    ensures
        auth::status_of(ApiErrorView::Unauthorized(m)) == 401,
        auth::status_of(ApiErrorView::Forbidden(m)) == 403,
        auth::status_of(ApiErrorView::BadRequest(m)) == 400,
        auth::status_of(ApiErrorView::Internal(m)) == 500,
        auth::status_of(ApiErrorView::RateLimited { message: m, retry_after_secs: secs }) == 429,
        100 <= code < 1000 ==> auth::status_of(ApiErrorView::HttpStatus(code, m)) == code,
        !(100 <= code < 1000) ==> auth::status_of(ApiErrorView::HttpStatus(code, m)) == 500,
        auth::message_of(ApiErrorView::Unauthorized(m)) == m,
        auth::message_of(ApiErrorView::Forbidden(m)) == m,
        auth::message_of(ApiErrorView::BadRequest(m)) == m,
        auth::message_of(ApiErrorView::Internal(m)) == m,
        auth::message_of(ApiErrorView::RateLimited { message: m, retry_after_secs: secs }) == m,
        auth::message_of(ApiErrorView::HttpStatus(code, m)) == m,
{
}

/// An error is told apart by its kind and by what it says.
pub proof fn law_an_error_is_what_it_says(e: ApiError)
    ensures
        match e {
            ApiError::Unauthorized(m) => e@ == ApiErrorView::Unauthorized(m@),
            ApiError::Forbidden(m) => e@ == ApiErrorView::Forbidden(m@),
            ApiError::BadRequest(m) => e@ == ApiErrorView::BadRequest(m@),
            ApiError::Internal(m) => e@ == ApiErrorView::Internal(m@),
            ApiError::RateLimited { message, retry_after_secs } => e@
                == (ApiErrorView::RateLimited { message: message@, retry_after_secs }),
            ApiError::HttpStatus(code, m) => e@ == ApiErrorView::HttpStatus(code, m@),
        },
{
}

/// Whether an identity holds a role by its own name.
pub open spec fn holds_role(identity: AuthenticatedIdentity, role: RoleView) -> bool {
    exists|i: int| 0 <= i < identity.roles@.len() && (#[trigger] identity.roles@[i])@ == role
}

/// Who may upload code for a tenant: a superuser, or a tenant administrator to whom the database is
/// open. Whoever is no administrator is told that first.
pub proof fn law_who_may_administer(identity: AuthenticatedIdentity, database_id: DatabaseId)
    ensures
        ({
            let admin = identity.is_superuser || holds_role(identity, RoleView::TenantAdmin);
            let open = identity.is_superuser || (match identity.databases {
                DatabaseSet::All => true,
                DatabaseSet::Only(ids) => exists|i: int|
                    0 <= i < ids@.len() && #[trigger] ids@[i] == database_id,
            });
            auth::admin_refusal(identity, database_id) == (if !admin {
                Some(ApiErrorView::Forbidden("WASM uploads require tenant_admin privileges"@))
            } else if !open {
                Some(
                    ApiErrorView::Forbidden(
                        "permission denied for selected database "@ + text::decimal(
                            database_id.0 as nat,
                        ),
                    ),
                )
            } else {
                None
            })
        }),
{
    law_which_roles_an_identity_acts_in(identity, RoleView::TenantAdmin);
    match identity.databases {
        DatabaseSet::Only(ids) => {
            if ids@.contains(database_id) {
                let i = choose|i: int| 0 <= i < ids@.len() && ids@[i] == database_id;
                assert(ids@[i] == database_id);
            }
        },
        _ => {},
    }
}

/// An identity acts in the roles that it holds, and a superuser in every role.
pub proof fn law_which_roles_an_identity_acts_in(identity: AuthenticatedIdentity, role: RoleView)
    ensures
        identity.acts_as(role) <==> identity.is_superuser || holds_role(identity, role),
{
    let views = identity::role_views(identity.roles@);
    if views.contains(role) {
        let i = choose|i: int| 0 <= i < views.len() && views[i] == role;
        assert(identity.roles@[i]@ == role);
    }
    if holds_role(identity, role) {
        let i = choose|i: int|
            0 <= i < identity.roles@.len() && (#[trigger] identity.roles@[i])@ == role;
        assert(views[i] == role);
    }
}

/// The name of each role.
pub proof fn law_what_roles_are_called(role: Role)
    ensures
        identity::role_name(role@) == (match role {
            Role::TenantAdmin => "tenant_admin"@,
            Role::ReadWrite => "readwrite"@,
            Role::ReadOnly => "readonly"@,
            Role::Monitor => "monitor"@,
            Role::DatabaseOwner(id) => "database_owner:"@ + text::decimal(id.0 as nat),
            Role::DatabaseEditor(id) => "database_editor:"@ + text::decimal(id.0 as nat),
            Role::DatabaseReader(id) => "database_reader:"@ + text::decimal(id.0 as nat),
            Role::Custom(name) => name@,
        }),
{
}

/// Two roles are the same if they are of one kind and name the same database or the same role.
pub proof fn law_which_roles_are_the_same(a: Role, b: Role)
    ensures
        a@ == b@ <==> match (a, b) {
            (Role::TenantAdmin, Role::TenantAdmin) => true,
            (Role::ReadWrite, Role::ReadWrite) => true,
            (Role::ReadOnly, Role::ReadOnly) => true,
            (Role::Monitor, Role::Monitor) => true,
            (Role::DatabaseOwner(x), Role::DatabaseOwner(y)) => x.0 == y.0,
            (Role::DatabaseEditor(x), Role::DatabaseEditor(y)) => x.0 == y.0,
            (Role::DatabaseReader(x), Role::DatabaseReader(y)) => x.0 == y.0,
            (Role::Custom(x), Role::Custom(y)) => x@ == y@,
            _ => false,
        },
{
}

/// Who runs each plan: the orchestrators what is theirs and not worked out yet, and the gateway, or
/// the node itself without one, everything else.
pub proof fn law_who_runs_a_plan(plan: PhysicalPlan, gateway: bool)
    ensures
        dispatch::route_of(plan, gateway) == (if plan == PhysicalPlan::Document(
            DocumentOp::InsertSelect,
        ) {
            TaskRoute::InsertSelect
        } else if plan == PhysicalPlan::Document(
            DocumentOp::Merge { resolve_only: false, resolved_inserts: false },
        ) {
            TaskRoute::Merge
        } else if exists|returning: bool|
            plan == PhysicalPlan::Document(
                #[trigger] join_to_apply(returning),
            ) {
            TaskRoute::UpdateFromJoin
        } else if gateway {
            TaskRoute::Gateway
        } else {
            TaskRoute::Local
        }),
{
    match plan {
        PhysicalPlan::Document(
            DocumentOp::UpdateFromJoin { returning, resolve_only: false, source_rows: false },
        ) => {
            assert(plan == PhysicalPlan::Document(join_to_apply(returning)));
        },
        _ => {},
    }
}

/// An update from a join that is to be applied and whose source rows nobody has read yet.
pub open spec fn join_to_apply(returning: bool) -> DocumentOp {
    DocumentOp::UpdateFromJoin { returning, resolve_only: false, source_rows: false }
}

/// Which database a request asks for: that of its header, or that of its parameter where it has no
/// such header, or none; a header that is no text cannot be read.
pub proof fn law_which_database_is_asked_for(name: Seq<char>, parameter: Option<Seq<char>>)
    ensures
        dispatch::database_asked_for(HeaderTextView::Text(name), parameter) == ChoiceView::Named(
            name,
        ),
        dispatch::database_asked_for(HeaderTextView::NotText, parameter) == ChoiceView::Unreadable,
        dispatch::database_asked_for(HeaderTextView::Missing, Some(name)) == ChoiceView::Named(name),
        dispatch::database_asked_for(HeaderTextView::Missing, None) == ChoiceView::Unnamed,
{
}

/// Row-level security is told the database that was selected; nothing else of a request changes.
pub proof fn law_scoping_tells_the_selected_database(s: Selected)
    ensures
        ({
            let after = dispatch::scoped(s);
            &&& after.database_id == s.database_id
            &&& after.request.identity == s.request.identity
            &&& after.request.sql == s.request.sql
            &&& after.request.auth_ctx.database_id == Some(s.database_id)
            &&& after.request.auth_ctx == (auth::AuthContext {
                database_id: Some(s.database_id),
                ..s.request.auth_ctx
            })
        }),
{
}

/// An error of a data definition command is forbidden where a privilege is missing, and a bad request
/// otherwise. A response that is no success is reported by its error code, if it has one.
pub proof fn law_how_failures_are_reported(error: DdlError, error_code: Option<String>)
    ensures
        error.sqlstate@ == "42501"@ ==> dispatch::ddl_error(error) == ApiErrorView::Forbidden(
            error.message@,
        ),
        error.sqlstate@ != "42501"@ ==> dispatch::ddl_error(error) == ApiErrorView::BadRequest(
            error.message@,
        ),
        error_code is Some ==> dispatch::failed_response(error_code) == ApiErrorView::Internal(
            error_code->0@,
        ),
        error_code is None ==> dispatch::failed_response(error_code) == ApiErrorView::Internal(
            "unknown error"@,
        ),
{
}

/// Headers, credentials and choices are told apart by their kind and by what they hold.
pub proof fn law_what_requests_hold(
    header: HeaderText,
    credentials: Credentials,
    choice: DatabaseChoice,
)
    ensures
        match header {
            HeaderText::Missing => header@ == HeaderTextView::Missing,
            HeaderText::NotText => header@ == HeaderTextView::NotText,
            HeaderText::Text(text) => header@ == HeaderTextView::Text(text@),
        },
        match credentials {
            Credentials::Bearer(token) => credentials@ == CredentialsView::Bearer(token@),
            Credentials::Nothing => credentials@ == CredentialsView::Nothing,
            Credentials::Unreadable => credentials@ == CredentialsView::Unreadable,
        },
        match choice {
            DatabaseChoice::Named(name) => choice@ == ChoiceView::Named(name@),
            DatabaseChoice::Unnamed => choice@ == ChoiceView::Unnamed,
            DatabaseChoice::Unreadable => choice@ == ChoiceView::Unreadable,
        },
{
}

} // verus!
