//! Who a request comes from.
//!
//! A bearer token, a trusted identity or nothing says who a request comes from. Tokens and
//! identities are looked up by services that take time; as long as one is needed,
//! [`resolve_identity`] and [`resolve_auth`] return a step that says which, and what it finds goes
//! into the function that the step names.

use vstd::prelude::*;

use super::headers;
use super::headers::HeaderText;
use super::headers::HeaderTextView;
use crate::error::{Error, ErrorKind};
use crate::identity::{
    AuthMethod, AuthenticatedIdentity, DatabaseId, Role, RoleView, TenantId,
};
use crate::text;
use crate::text_map::TextMap;

verus! {

/// What an HTTP request fails with.
#[derive(Debug)]
pub enum ApiError {
    Unauthorized(String),
    Forbidden(String),
    BadRequest(String),
    Internal(String),
    /// Too many requests: try again after so many seconds.
    RateLimited { message: String, retry_after_secs: u64 },
    /// Any other status.
    HttpStatus(u16, String),
}

/// What an HTTP request fails with, messages taken by their text.
pub enum ApiErrorView {
    Unauthorized(Seq<char>),
    Forbidden(Seq<char>),
    BadRequest(Seq<char>),
    Internal(Seq<char>),
    RateLimited { message: Seq<char>, retry_after_secs: u64 },
    HttpStatus(u16, Seq<char>),
}

impl View for ApiError {
    type V = ApiErrorView;

    open spec fn view(&self) -> ApiErrorView {
        match self {
            ApiError::Unauthorized(m) => ApiErrorView::Unauthorized(m@),
            ApiError::Forbidden(m) => ApiErrorView::Forbidden(m@),
            ApiError::BadRequest(m) => ApiErrorView::BadRequest(m@),
            ApiError::Internal(m) => ApiErrorView::Internal(m@),
            ApiError::RateLimited { message, retry_after_secs } => ApiErrorView::RateLimited {
                message: message@,
                retry_after_secs: *retry_after_secs,
            },
            ApiError::HttpStatus(code, m) => ApiErrorView::HttpStatus(*code, m@),
        }
    }
}

impl From<Error> for ApiError {
    fn from(e: Error) -> (r: Self) {
        match e.kind {
            ErrorKind::RejectedAuthz => ApiError::Forbidden(e.text),
            ErrorKind::BadRequest { .. }
            | ErrorKind::PlanError
            | ErrorKind::Config
            | ErrorKind::CollectionNotFound
            | ErrorKind::DocumentNotFound => ApiError::BadRequest(e.text),
            ErrorKind::Other => ApiError::Internal(e.text),
        }
    }
}

impl vstd::std_specs::convert::FromSpecImpl<Error> for ApiError {
    open spec fn obeys_from_spec() -> bool {
        true
    }

    open spec fn from_spec(e: Error) -> ApiError {
        match e.kind {
            ErrorKind::RejectedAuthz => ApiError::Forbidden(e.text),
            ErrorKind::Other => ApiError::Internal(e.text),
            _ => ApiError::BadRequest(e.text),
        }
    }
}

/// The reply to a request that failed.
pub struct ErrorReply {
    pub status: u16,
    pub message: String,
    /// The value of the `Retry-After` header, where there is one.
    pub retry_after: Option<String>,
}

/// The status of an error. One that is no HTTP status stands for an internal error.
pub open spec fn status_of(error: ApiErrorView) -> u16 {
    match error {
        ApiErrorView::Unauthorized(_) => 401,
        ApiErrorView::Forbidden(_) => 403,
        ApiErrorView::BadRequest(_) => 400,
        ApiErrorView::Internal(_) => 500,
        ApiErrorView::RateLimited { .. } => 429,
        ApiErrorView::HttpStatus(code, _) => if 100 <= code <= 999 {
            code
        } else {
            500
        },
    }
}

/// The message of an error.
pub open spec fn message_of(error: ApiErrorView) -> Seq<char> {
    match error {
        ApiErrorView::Unauthorized(m) => m,
        ApiErrorView::Forbidden(m) => m,
        ApiErrorView::BadRequest(m) => m,
        ApiErrorView::Internal(m) => m,
        ApiErrorView::RateLimited { message, .. } => message,
        ApiErrorView::HttpStatus(_, m) => m,
    }
}

/// Calls `axum::http::StatusCode::from_u16`. Claims that it takes the numbers from 100 to 999, each
/// for itself, and no others.
#[verifier::external_body]
fn status_from_u16(code: u16) -> (r: Option<u16>)
    ensures
        r == (if 100 <= code <= 999 {
            Some(code)
        } else {
            None
        }),
{
    axum::http::StatusCode::from_u16(code).ok().map(|status| status.as_u16())
}

impl ApiError {
    /// The reply to a request that failed with this error.
    pub fn into_response(self) -> (r: ErrorReply)
        ensures
            r.status == status_of(self@),
            r.message@ == message_of(self@),
            match self@ {
                ApiErrorView::RateLimited { retry_after_secs, .. } => r.retry_after matches Some(
                    text,
                ) && text@ == text::decimal(retry_after_secs as nat),
                _ => r.retry_after is None,
            },
    {
        match self {
            ApiError::RateLimited { message, retry_after_secs } => ErrorReply {
                status: 429,
                message,
                retry_after: Some(text::decimal_text(retry_after_secs)),
            },
            ApiError::Unauthorized(message) => ErrorReply {
                status: 401,
                message,
                retry_after: None,
            },
            ApiError::Forbidden(message) => ErrorReply { status: 403, message, retry_after: None },
            ApiError::BadRequest(message) => ErrorReply { status: 400, message, retry_after: None },
            ApiError::Internal(message) => ErrorReply { status: 500, message, retry_after: None },
            ApiError::HttpStatus(code, message) => ErrorReply {
                status: match status_from_u16(code) {
                    Some(status) => status,
                    None => 500,
                },
                message,
                retry_after: None,
            },
        }
    }
}

/// How a server makes sure who its clients are.
#[derive(Debug, Clone, Copy, PartialEq, Eq, Structural)]
pub enum AuthMode {
    Trust,
    Password,
    Certificate,
}

/// What the handlers of all requests share, as far as they decide by it.
#[derive(Debug, Clone, Copy)]
pub struct AppState {
    pub auth_mode: AuthMode,
    /// Whether there is a registry of keys that tokens are checked against.
    pub jwks_registry: bool,
    /// Whether the gateway to the cluster is up.
    pub gateway: bool,
}

/// What a request says of where it comes from.
pub enum Credentials {
    /// A bearer token, without the white space around it.
    Bearer(String),
    /// Nothing that could be read as a token.
    Nothing,
    /// A header that is no text.
    Unreadable,
}

/// What a request says of where it comes from.
pub enum CredentialsView {
    Bearer(Seq<char>),
    Nothing,
    Unreadable,
}

impl View for Credentials {
    type V = CredentialsView;

    open spec fn view(&self) -> CredentialsView {
        match self {
            Credentials::Bearer(token) => CredentialsView::Bearer(token@),
            Credentials::Nothing => CredentialsView::Nothing,
            Credentials::Unreadable => CredentialsView::Unreadable,
        }
    }
}

/// What an `Authorization` header says of where a request comes from.
pub open spec fn credentials_in(header: HeaderTextView) -> CredentialsView {
    match header {
        HeaderTextView::Missing => CredentialsView::Nothing,
        HeaderTextView::NotText => CredentialsView::Unreadable,
        HeaderTextView::Text(value) => if "Bearer "@.is_prefix_of(value) {
            CredentialsView::Bearer(text::trimmed(value.skip(7)))
        } else {
            CredentialsView::Nothing
        },
    }
}

/// What the headers of a request say of where it comes from.
pub open spec fn credentials_of(
    headers: axum::http::HeaderMap<axum::http::HeaderValue>,
) -> CredentialsView {
    credentials_in(headers::text_of_header(headers, "authorization"@))
}

/// Reads what an `Authorization` header says.
pub fn read_credentials(header: HeaderText) -> (r: Credentials)
    ensures
        r@ == credentials_in(header@),
{
    match header {
        HeaderText::Missing => Credentials::Nothing,
        HeaderText::NotText => Credentials::Unreadable,
        HeaderText::Text(value) => {
            if text::starts_with(value.as_str(), "Bearer ") {
                proof {
                    reveal_strlit("Bearer ");
                }
                let len = value.as_str().unicode_len();
                let token = value.as_str().substring_char(7, len);
                assert(token@ =~= value@.skip(7));
                Credentials::Bearer(text::trim(token).to_owned())
            } else {
                Credentials::Nothing
            }
        },
    }
}

fn credentials(headers: &axum::http::HeaderMap<axum::http::HeaderValue>) -> (r: Credentials)
    ensures
        r@ == credentials_of(*headers),
{
    proof {
        reveal_strlit("authorization");
    }
    read_credentials(headers::read_header(headers, "authorization"))
}

/// How often `c` stands in `s`.
pub open spec fn times(s: Seq<char>, c: char) -> nat {
    s.filter(text::only(c)).len()
}

/// Whether a token has the form of a JWT: three parts with dots between them.
pub open spec fn looks_like_jwt(token: Seq<char>) -> bool {
    times(token, '.') == 2
}

fn has_jwt_form(token: &str) -> (r: bool)
    ensures
        r == looks_like_jwt(token@),
{
    broadcast use vstd::seq_lib::group_seq_properties;

    let chars = text::chars_of(token);
    let ghost is_dot = text::only('.');
    let mut dots: usize = 0;
    let mut i: usize = 0;
    assert(token@.take(0).filter(is_dot).len() == 0) by {
        reveal(Seq::filter);
    }
    while i < chars.len()
        invariant
            chars@ == token@,
            i <= token@.len(),
            is_dot == text::only('.'),
            dots == token@.take(i as int).filter(is_dot).len(),
            dots <= i,
        decreases token@.len() - i,
    {
        let c = chars[i];
        proof {
            assert(token@.take(i as int + 1) =~= token@.take(i as int).push(c));
            token@.take(i as int).lemma_filter_push(c, is_dot);
        }
        if c == '.' {
            dots += 1;
        }
        i += 1;
    }
    assert(token@.take(i as int) =~= token@);
    dots == 2
}

/// What is needed to say who a request comes from.
pub enum IdentityStep {
    /// This is who, or why it cannot be said.
    Done(Result<AuthenticatedIdentity, ApiError>),
    /// Check the token against the registry of keys, then call [`jwt_checked`].
    CheckJwt { token: String, peer_addr: String },
    /// Look the token up among the API keys, then call [`api_key_checked`].
    CheckApiKey { token: String, peer_addr: String },
    /// Look up the configured trust identity, then call [`trust_identity_found`].
    FindTrustIdentity,
}

/// What every service finds, should it be asked.
pub struct Findings {
    pub jwt: Option<AuthenticatedIdentity>,
    pub api_key: Option<AuthenticatedIdentity>,
    pub trust_identity: Option<AuthenticatedIdentity>,
}

/// Who a request comes from, or why it cannot be said.
pub enum ResolvedView {
    Known(AuthenticatedIdentity),
    Unknown(ApiErrorView),
}

/// The view of an identity or an error.
pub open spec fn resolved_view(r: Result<AuthenticatedIdentity, ApiError>) -> ResolvedView {
    match r {
        Ok(identity) => ResolvedView::Known(identity),
        Err(e) => ResolvedView::Unknown(e@),
    }
}

/// An identity that was looked for, or the error with `message` where there is none.
pub open spec fn found(identity: Option<AuthenticatedIdentity>, message: Seq<char>) -> ResolvedView {
    match identity {
        Some(identity) => ResolvedView::Known(identity),
        None => ResolvedView::Unknown(ApiErrorView::Unauthorized(message)),
    }
}

/// Who a request comes from: whom its token names, as a JWT first and as an API key then; without a
/// token, the trust identity where the server trusts its clients.
pub open spec fn who(credentials: CredentialsView, state: AppState, f: Findings) -> ResolvedView {
    match credentials {
        CredentialsView::Unreadable => ResolvedView::Unknown(
            ApiErrorView::Unauthorized("invalid authorization header encoding"@),
        ),
        CredentialsView::Bearer(token) => if looks_like_jwt(token) && state.jwks_registry
            && f.jwt is Some {
            ResolvedView::Known(f.jwt->0)
        } else {
            found(f.api_key, "invalid bearer token"@)
        },
        CredentialsView::Nothing => if state.auth_mode is Trust {
            found(f.trust_identity, "configured trust identity is unavailable"@)
        } else {
            ResolvedView::Unknown(
                ApiErrorView::Unauthorized("missing Authorization: Bearer <token> header"@),
            )
        },
    }
}

/// Who a request comes from, when the question has come as far as `step`.
pub open spec fn identity_settled(step: IdentityStep, f: Findings) -> ResolvedView {
    match step {
        IdentityStep::Done(r) => resolved_view(r),
        IdentityStep::CheckJwt { .. } => match f.jwt {
            Some(identity) => ResolvedView::Known(identity),
            None => found(f.api_key, "invalid bearer token"@),
        },
        IdentityStep::CheckApiKey { .. } => found(f.api_key, "invalid bearer token"@),
        IdentityStep::FindTrustIdentity => found(
            f.trust_identity,
            "configured trust identity is unavailable"@,
        ),
    }
}

/// Whether the step hands the token and the address on as they came.
pub open spec fn asks_for(step: IdentityStep, asked: Seq<char>, peer: Seq<char>) -> bool {
    match step {
        IdentityStep::CheckJwt { token, peer_addr } => token@ == asked && peer_addr@ == peer,
        IdentityStep::CheckApiKey { token, peer_addr } => token@ == asked && peer_addr@ == peer,
        _ => true,
    }
}

/// Whether the step begins to find out who a request with these credentials from this address comes
/// from: whatever the services find, the answer is right, and a token is handed on as it came.
pub open spec fn finds(
    step: IdentityStep,
    credentials: CredentialsView,
    state: AppState,
    peer: Seq<char>,
) -> bool {
    &&& forall|f: Findings| #[trigger]
        identity_settled(step, f) == who(credentials, state, f)
    &&& credentials matches CredentialsView::Bearer(token) ==> asks_for(step, token, peer) && (
    step is CheckJwt || step is CheckApiKey)
    &&& step is FindTrustIdentity ==> credentials is Nothing
}

/// Begins to find out who a request with these credentials comes from.
pub fn identity_from(credentials: Credentials, state: &AppState, peer_addr: &str) -> (r:
    IdentityStep)
    ensures
        finds(r, credentials@, *state, peer_addr@),
{
    match credentials {
        Credentials::Unreadable => IdentityStep::Done(
            Err(ApiError::Unauthorized("invalid authorization header encoding".to_owned())),
        ),
        Credentials::Bearer(token) => {
            if state.jwks_registry && has_jwt_form(token.as_str()) {
                IdentityStep::CheckJwt { token, peer_addr: peer_addr.to_owned() }
            } else {
                IdentityStep::CheckApiKey { token, peer_addr: peer_addr.to_owned() }
            }
        },
        Credentials::Nothing => {
            if state.auth_mode == AuthMode::Trust {
                IdentityStep::FindTrustIdentity
            } else {
                IdentityStep::Done(
                    Err(
                        ApiError::Unauthorized(
                            "missing Authorization: Bearer <token> header".to_owned(),
                        ),
                    ),
                )
            }
        },
    }
}

/// Begins to find out who a request with these headers comes from.
pub fn resolve_identity(
    headers: &axum::http::HeaderMap<axum::http::HeaderValue>,
    state: &AppState,
    peer_addr: &str,
) -> (r: IdentityStep)
    ensures
        finds(r, credentials_of(*headers), *state, peer_addr@),
{
    identity_from(credentials(headers), state, peer_addr)
}

/// Goes on, given whom the registry of keys takes the token for, if for anyone.
pub fn jwt_checked(
    token: String,
    peer_addr: String,
    identity: Option<AuthenticatedIdentity>,
) -> (r: IdentityStep)
    ensures
        match identity {
            Some(identity) => r == IdentityStep::Done(Ok(identity)),
            None => r == (IdentityStep::CheckApiKey { token, peer_addr }),
        },
{
    match identity {
        Some(identity) => IdentityStep::Done(Ok(identity)),
        None => IdentityStep::CheckApiKey { token, peer_addr },
    }
}

fn found_or(identity: Option<AuthenticatedIdentity>, message: &str) -> (r: IdentityStep)
    ensures
        r matches IdentityStep::Done(done) && resolved_view(done) == found(identity, message@),
{
    match identity {
        Some(identity) => IdentityStep::Done(Ok(identity)),
        None => IdentityStep::Done(Err(ApiError::Unauthorized(message.to_owned()))),
    }
}

/// Ends the question, given whose API key the token is, if anyone's.
pub fn api_key_checked(identity: Option<AuthenticatedIdentity>) -> (r: IdentityStep)
    ensures
        r matches IdentityStep::Done(done) && resolved_view(done) == found(
            identity,
            "invalid bearer token"@,
        ),
{
    found_or(identity, "invalid bearer token")
}

/// Ends the question, given the configured trust identity, if there is one.
pub fn trust_identity_found(identity: Option<AuthenticatedIdentity>) -> (r: IdentityStep)
    ensures
        r matches IdentityStep::Done(done) && resolved_view(done) == found(
            identity,
            "configured trust identity is unavailable"@,
        ),
{
    found_or(identity, "configured trust identity is unavailable")
}

/// What `require_tenant_admin_for_database` answers.
pub open spec fn admin_refusal(
    identity: AuthenticatedIdentity,
    database_id: DatabaseId,
) -> Option<ApiErrorView> {
    if !identity.acts_as(RoleView::TenantAdmin) {
        Some(ApiErrorView::Forbidden("WASM uploads require tenant_admin privileges"@))
    } else if !identity.may_use(database_id) {
        Some(
            ApiErrorView::Forbidden(
                "permission denied for selected database "@ + text::decimal(database_id.0 as nat),
            ),
        )
    } else {
        None
    }
}

/// Makes sure that an identity may administer its tenant in this database. A tenant administrator
/// is still bound to the databases that it may use.
pub fn require_tenant_admin_for_database(
    identity: &AuthenticatedIdentity,
    database_id: DatabaseId,
) -> (r: Result<(), ApiError>)
    ensures
        match r {
            Ok(()) => admin_refusal(*identity, database_id) is None,
            Err(e) => admin_refusal(*identity, database_id) == Some(e@),
        },
{
    if !identity.has_role(&Role::TenantAdmin) {
        return Err(ApiError::Forbidden("WASM uploads require tenant_admin privileges".to_owned()));
    }
    if !identity.can_access_database(database_id) {
        let number = text::decimal_text(database_id.as_u64());
        return Err(
            ApiError::Forbidden(
                "permission denied for selected database ".to_owned().concat(number.as_str()),
            ),
        );
    }
    Ok(())
}

/// The code of a read that row-level security refuses.
pub const RLS_READ_DENIED: &'static str = "RLS_READ_DENIED";

/// What a client is told of rows that it may not see.
#[derive(Debug, Clone)]
pub struct DenyError {
    pub code: String,
    pub message: String,
    pub detail: Option<String>,
}

/// How rows that a client may not see are dealt with.
#[derive(Debug, Clone)]
pub enum DenyMode {
    /// They are left out.
    Silent,
    /// The request fails.
    Error(DenyError),
}

/// Whether an account may act.
#[derive(Debug, Clone, Copy, PartialEq, Eq, Structural)]
pub enum AuthStatus {
    Active,
    Restricted,
    Suspended,
}

/// What row-level security knows of a request.
pub struct AuthContext {
    pub id: String,
    pub username: String,
    pub email: Option<String>,
    pub tenant_id: TenantId,
    pub org_id: Option<String>,
    pub org_ids: Vec<String>,
    pub roles: Vec<Role>,
    pub groups: Vec<String>,
    pub permissions: Vec<String>,
    pub status: AuthStatus,
    pub metadata: TextMap<String>,
    pub auth_method: AuthMethod,
    pub auth_time: Option<u64>,
    pub session_id: String,
    pub database_id: Option<DatabaseId>,
    pub on_deny_override: Option<DenyMode>,
}

/// What a client asks for with `X-On-Deny`: a word, in capitals or small letters, with white space
/// around it or not. Anything else asks for nothing.
pub enum OnDeny {
    Silent,
    Error,
    Nothing,
}

/// What the value of `X-On-Deny` asks for.
pub open spec fn on_deny(header: HeaderTextView) -> OnDeny {
    match header {
        HeaderTextView::Text(value) => {
            let word = text::ascii_lowered(text::trimmed(value));
            if word == text::ascii_lowered("SILENT"@) {
                OnDeny::Silent
            } else if word == text::ascii_lowered("ERROR"@) {
                OnDeny::Error
            } else {
                OnDeny::Nothing
            }
        },
        _ => OnDeny::Nothing,
    }
}

/// Whether `after` is `before` with what the client asked for. Nothing else of the context changes,
/// and the words of an error are the server's own.
pub open spec fn overridden(before: AuthContext, asked: OnDeny, after: AuthContext) -> bool {
    &&& after == AuthContext { on_deny_override: after.on_deny_override, ..before }
    &&& match asked {
        OnDeny::Silent => after.on_deny_override == Some(DenyMode::Silent),
        OnDeny::Error => {
            &&& after.on_deny_override matches Some(DenyMode::Error(e))
            &&& e.code@ == RLS_READ_DENIED@
            &&& e.message@ == "Access denied by row-level security policy"@
            &&& e.detail is None
        },
        OnDeny::Nothing => after.on_deny_override == before.on_deny_override,
    }
}

/// Sets what a client asks for with `X-On-Deny`, given the header.
pub fn override_on_deny(header: HeaderText, auth_ctx: AuthContext) -> (r: AuthContext)
    ensures
        overridden(auth_ctx, on_deny(header@), r),
{
    let mut auth_ctx = auth_ctx;
    match header {
        HeaderText::Text(value) => {
            let word = text::trim(value.as_str());
            if text::eq_ignore_ascii_case(word, "SILENT") {
                auth_ctx.on_deny_override = Some(DenyMode::Silent);
            } else if text::eq_ignore_ascii_case(word, "ERROR") {
                auth_ctx.on_deny_override = Some(
                    DenyMode::Error(
                        DenyError {
                            code: RLS_READ_DENIED.to_owned(),
                            message: "Access denied by row-level security policy".to_owned(),
                            detail: None,
                        },
                    ),
                );
            }
        },
        _ => {},
    }
    auth_ctx
}

/// Sets what a client asks for with `X-On-Deny`.
pub fn apply_on_deny_header(
    headers: &axum::http::HeaderMap<axum::http::HeaderValue>,
    auth_ctx: AuthContext,
) -> (r: AuthContext)
    ensures
        overridden(auth_ctx, on_deny(headers::text_of_header(*headers, "x-on-deny"@)), r),
{
    proof {
        reveal_strlit("x-on-deny");
    }
    override_on_deny(headers::read_header(headers, "x-on-deny"), auth_ctx)
}

/// What is needed to say who a request comes from and what row-level security knows of it.
pub enum AuthStep {
    /// This is who, and what is known; or why it cannot be said.
    Done(Result<(AuthenticatedIdentity, AuthContext), ApiError>),
    /// Check the token against the registry of keys. Where it holds, build the context from its
    /// claims. Then call [`claims_checked`].
    CheckClaims { token: String },
    /// Find out who the request comes from. Where that can be said, build the context from the
    /// identity. Then call [`context_built`].
    FindIdentity(IdentityStep),
}

/// Whether the step begins to find out who a request with these credentials from this address comes
/// from and what is known of it: a token that looks like a JWT is checked for its claims where there
/// is a registry of keys, and otherwise the identity is found.
pub open spec fn begins_auth(
    step: AuthStep,
    credentials: CredentialsView,
    state: AppState,
    peer: Seq<char>,
) -> bool {
    match credentials {
        CredentialsView::Bearer(token) if looks_like_jwt(token) && state.jwks_registry => {
            step matches AuthStep::CheckClaims { token: asked } && asked@ == token
        },
        _ => step matches AuthStep::FindIdentity(find) && finds(find, credentials, state, peer),
    }
}

/// Who a request with these credentials is taken to come from, when the question who that is and
/// what is known of it has come as far as `step`.
pub open spec fn auth_settled(
    step: AuthStep,
    credentials: CredentialsView,
    state: AppState,
    f: Findings,
) -> ResolvedView {
    match step {
        AuthStep::Done(Ok(known)) => ResolvedView::Known(known.0),
        AuthStep::Done(Err(e)) => ResolvedView::Unknown(e@),
        AuthStep::CheckClaims { .. } => match f.jwt {
            Some(identity) => ResolvedView::Known(identity),
            None => who(credentials, state, f),
        },
        AuthStep::FindIdentity(find) => identity_settled(find, f),
    }
}

/// Begins to find out who a request comes from and what is known of it. A token that looks like a
/// JWT is checked first for its claims; without them, the identity is found as
/// [`resolve_identity`] does.
pub fn resolve_auth(
    headers: &axum::http::HeaderMap<axum::http::HeaderValue>,
    state: &AppState,
    peer_addr: &str,
) -> (r: AuthStep)
    ensures
        begins_auth(r, credentials_of(*headers), *state, peer_addr@),
{
    match credentials(headers) {
        Credentials::Bearer(token) => {
            if state.jwks_registry && has_jwt_form(token.as_str()) {
                return AuthStep::CheckClaims { token };
            }
        },
        _ => {},
    }
    AuthStep::FindIdentity(resolve_identity(headers, state, peer_addr))
}

/// Goes on, given the identity and the context that the claims of the token hold, if it holds.
pub fn claims_checked(
    headers: &axum::http::HeaderMap<axum::http::HeaderValue>,
    state: &AppState,
    peer_addr: &str,
    checked: Option<(AuthenticatedIdentity, AuthContext)>,
) -> (r: AuthStep)
    ensures
        match checked {
            Some(known) => {
                &&& r matches AuthStep::Done(Ok(done))
                &&& done.0 == known.0
                &&& overridden(
                    known.1,
                    on_deny(headers::text_of_header(*headers, "x-on-deny"@)),
                    done.1,
                )
            },
            None => {
                &&& r matches AuthStep::FindIdentity(step)
                &&& finds(step, credentials_of(*headers), *state, peer_addr@)
            },
        },
{
    match checked {
        Some((identity, auth_ctx)) => AuthStep::Done(
            Ok((identity, apply_on_deny_header(headers, auth_ctx))),
        ),
        None => AuthStep::FindIdentity(resolve_identity(headers, state, peer_addr)),
    }
}

/// Ends the question, given the identity and the context built from it, or why there is none.
pub fn context_built(
    headers: &axum::http::HeaderMap<axum::http::HeaderValue>,
    resolved: Result<(AuthenticatedIdentity, AuthContext), ApiError>,
) -> (r: AuthStep)
    ensures
        match resolved {
            Ok(known) => {
                &&& r matches AuthStep::Done(Ok(done))
                &&& done.0 == known.0
                &&& overridden(
                    known.1,
                    on_deny(headers::text_of_header(*headers, "x-on-deny"@)),
                    done.1,
                )
            },
            Err(e) => r == AuthStep::Done(Err(e)),
        },
{
    match resolved {
        Ok((identity, auth_ctx)) => AuthStep::Done(
            Ok((identity, apply_on_deny_header(headers, auth_ctx))),
        ),
        Err(e) => AuthStep::Done(Err(e)),
    }
}

/// Who a request comes from, for handlers that need no more.
pub struct ResolvedIdentity(pub AuthenticatedIdentity);

impl ResolvedIdentity {
    /// The tenant that the request is for.
    pub fn tenant_id(&self) -> (r: TenantId)
        ensures
            r == self.0.tenant_id,
    {
        self.0.tenant_id
    }
}

/// Who a request comes from, and what row-level security knows of it.
pub struct ResolvedAuth(pub AuthenticatedIdentity, pub AuthContext);

impl ResolvedAuth {
    /// The tenant that the request is for.
    pub fn tenant_id(&self) -> (r: TenantId)
        ensures
            r == self.0.tenant_id,
    {
        self.0.tenant_id
    }
}

} // verus!
