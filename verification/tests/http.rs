use axum::http::{HeaderMap, HeaderValue};
use nodedb_control::error::{Error, ErrorKind};
use nodedb_control::http::auth::{
    api_key_checked, apply_on_deny_header, claims_checked, context_built, jwt_checked,
    require_tenant_admin_for_database, resolve_auth, resolve_identity, trust_identity_found,
    ApiError, AppState, AuthContext, AuthMode, AuthStatus, AuthStep, DenyMode, IdentityStep,
    ResolvedAuth, ResolvedIdentity, RLS_READ_DENIED,
};
use nodedb_control::http::dispatch::{
    ddl_error_to_api, response_error, route_task, DatabaseChoice, DdlError, GatewayError, Selected, TaskRoute,
};
use nodedb_control::http::json::error_json;
use nodedb_control::http::materialized::{
    append_response, database_authorized, database_resolved, ddl_dispatched, query, quota_checked,
    statement_planned, task_ran, QueryStep, ShapedPayload, TaskOutcome,
};
use nodedb_control::http::ndjson::{
    query_ndjson, stream_database_authorized, stream_database_resolved, stream_opened,
    stream_planned, stream_quota_checked, stream_task_ran, LinesOutcome, NdjsonReply, NdjsonStep,
    ResponseBody, ShapedLines,
};
use nodedb_control::identity::{
    AuthMethod, AuthenticatedIdentity, DatabaseId, DatabaseSet, Role, TenantId,
};
use nodedb_control::plan::physical::{DocumentOp, KvOp, PhysicalPlan};
use nodedb_control::text_map::TextMap;

fn identity() -> AuthenticatedIdentity {
    AuthenticatedIdentity::new_regular(
        42,
        "alice",
        TenantId::new(7),
        AuthMethod::ScramSha256,
        vec![Role::ReadWrite],
        None,
        DatabaseSet::All,
    )
}

fn auth_context() -> AuthContext {
    let mut metadata = TextMap::new();
    metadata.insert("plan".into(), "pro".into());
    AuthContext {
        id: "42".into(),
        username: "alice".into(),
        email: Some("alice@example.test".into()),
        tenant_id: TenantId::new(7),
        org_id: Some("org-7".into()),
        org_ids: vec!["org-7".into()],
        roles: vec![Role::ReadWrite],
        groups: vec!["engineering".into()],
        permissions: vec!["documents:read".into()],
        status: AuthStatus::Restricted,
        metadata,
        auth_method: AuthMethod::ScramSha256,
        auth_time: Some(1_700_000_000),
        session_id: "s_http_test".into(),
        database_id: Some(DatabaseId::new(9)),
        on_deny_override: None,
    }
}

fn headers(value: &str) -> HeaderMap {
    let mut headers = HeaderMap::new();
    headers.insert("x-on-deny", value.parse().expect("valid header value"));
    headers
}

fn metadata(context: &AuthContext) -> Vec<(String, String)> {
    context.metadata.entries().iter().map(|e| (e.key.clone(), e.value.clone())).collect()
}

fn assert_authorization_fields_unchanged(before: &AuthContext, after: &AuthContext) {
    assert_eq!(after.id, before.id);
    assert_eq!(after.username, before.username);
    assert_eq!(after.email, before.email);
    assert_eq!(after.tenant_id, before.tenant_id);
    assert_eq!(after.org_id, before.org_id);
    assert_eq!(after.org_ids, before.org_ids);
    assert_eq!(format!("{:?}", after.roles), format!("{:?}", before.roles));
    assert_eq!(after.groups, before.groups);
    assert_eq!(after.permissions, before.permissions);
    assert_eq!(after.status, before.status);
    assert_eq!(metadata(after), metadata(before));
    assert_eq!(after.auth_method, before.auth_method);
    assert_eq!(after.auth_time, before.auth_time);
    assert_eq!(after.session_id, before.session_id);
    assert_eq!(after.database_id, before.database_id);
}

#[test]
fn x_on_deny_silent_accepts_trimmed_case_insensitive_token() {
    let context = auth_context();
    let result = apply_on_deny_header(&headers("  sIlEnT  "), auth_context());

    assert!(matches!(result.on_deny_override, Some(DenyMode::Silent)));
    assert_authorization_fields_unchanged(&context, &result);
}

#[test]
fn x_on_deny_error_uses_server_owned_generic_rls_response() {
    let context = auth_context();
    let result = apply_on_deny_header(&headers("  ErRoR  "), auth_context());

    match result.on_deny_override {
        Some(DenyMode::Error(ref error)) => {
            assert_eq!(error.code, RLS_READ_DENIED);
            assert_eq!(error.message, "Access denied by row-level security policy");
            assert_eq!(error.detail, None);
        }
        ref other => panic!("expected generic error override, got {other:?}"),
    }
    assert_authorization_fields_unchanged(&context, &result);
}

#[test]
fn x_on_deny_parameterized_error_cannot_inject_response_content() {
    let context = auth_context();
    let mut silent = auth_context();
    silent.on_deny_override = Some(DenyMode::Silent);
    let result = apply_on_deny_header(
        &headers("ERROR 'CLIENT_CODE' MESSAGE 'client-controlled message'"),
        silent,
    );

    assert!(matches!(result.on_deny_override, Some(DenyMode::Silent)));
    assert_authorization_fields_unchanged(&context, &result);
}

#[test]
fn x_on_deny_malformed_value_is_ignored() {
    let context = auth_context();
    let result = apply_on_deny_header(&headers("ERROR=custom"), auth_context());

    assert!(result.on_deny_override.is_none());
    assert_authorization_fields_unchanged(&context, &result);
}

#[test]
fn x_on_deny_that_is_no_text_is_ignored() {
    let mut headers = HeaderMap::new();
    assert!(apply_on_deny_header(&headers, auth_context()).on_deny_override.is_none());
    let value = HeaderValue::from_bytes(b"SILENT\xff").expect("valid header value");
    headers.insert("x-on-deny", value);
    assert!(apply_on_deny_header(&headers, auth_context()).on_deny_override.is_none());
}

#[test]
fn ddl_insufficient_privilege_maps_to_forbidden() {
    let error = DdlError { sqlstate: "42501".into(), message: "write permission denied".into() };

    assert!(matches!(
        ddl_error_to_api(error),
        ApiError::Forbidden(message) if message == "write permission denied"
    ));
}

#[test]
fn other_ddl_errors_are_bad_requests() {
    let error = DdlError { sqlstate: "42P07".into(), message: "exists".into() };
    assert!(matches!(ddl_error_to_api(error), ApiError::BadRequest(message) if message == "exists"));
}

#[test]
fn every_error_has_its_status() {
    let reply = |e: ApiError| {
        let r = e.into_response();
        (r.status, r.message, r.retry_after)
    };
    assert_eq!(reply(ApiError::Unauthorized("a".into())), (401, "a".into(), None));
    assert_eq!(reply(ApiError::Forbidden("b".into())), (403, "b".into(), None));
    assert_eq!(reply(ApiError::BadRequest("c".into())), (400, "c".into(), None));
    assert_eq!(reply(ApiError::Internal("d".into())), (500, "d".into(), None));
    let limited = ApiError::RateLimited { message: "e".into(), retry_after_secs: 120 };
    assert_eq!(reply(limited), (429, "e".into(), Some("120".into())));
    for (code, status) in [(404, 404), (100, 100), (999, 999), (99, 500), (1000, 500), (0, 500)] {
        assert_eq!(reply(ApiError::HttpStatus(code, "f".into())), (status, "f".into(), None));
    }
}

fn error(kind: ErrorKind) -> Error {
    Error { kind, text: "text".into() }
}

#[test]
fn errors_are_reported_by_their_kind() {
    let status = |kind| ApiError::from(error(kind)).into_response().status;
    assert_eq!(status(ErrorKind::RejectedAuthz), 403);
    assert_eq!(status(ErrorKind::BadRequest { detail: "detail".into() }), 400);
    assert_eq!(status(ErrorKind::PlanError), 400);
    assert_eq!(status(ErrorKind::Config), 400);
    assert_eq!(status(ErrorKind::CollectionNotFound), 400);
    assert_eq!(status(ErrorKind::DocumentNotFound), 400);
    assert_eq!(status(ErrorKind::Other), 500);
    let reply = ApiError::from(error(ErrorKind::BadRequest { detail: "detail".into() }));
    assert_eq!(reply.into_response().message, "text");
}

fn state(auth_mode: AuthMode, jwks_registry: bool) -> AppState {
    AppState { auth_mode, jwks_registry, gateway: true }
}

fn authorization(value: &[u8]) -> HeaderMap {
    let mut headers = HeaderMap::new();
    headers.insert("Authorization", HeaderValue::from_bytes(value).expect("valid header value"));
    headers
}

fn refusal(step: IdentityStep) -> String {
    match step {
        IdentityStep::Done(Err(ApiError::Unauthorized(message))) => message,
        _ => panic!("expected a refusal"),
    }
}

#[test]
fn tokens_are_looked_up_where_they_belong() {
    let registry = state(AuthMode::Trust, true);
    match resolve_identity(&authorization(b"Bearer \t a.b.c  "), &registry, "peer") {
        IdentityStep::CheckJwt { token, peer_addr } => {
            assert_eq!((token.as_str(), peer_addr.as_str()), ("a.b.c", "peer"));
            match jwt_checked(token, peer_addr, None) {
                IdentityStep::CheckApiKey { token, peer_addr } => {
                    assert_eq!((token.as_str(), peer_addr.as_str()), ("a.b.c", "peer"));
                }
                _ => panic!("expected the API keys to be asked"),
            }
        }
        _ => panic!("expected the registry to be asked"),
    }
    for token in ["a.b", "a.b.c.d", "key"] {
        let headers = authorization(format!("Bearer {token}").as_bytes());
        match resolve_identity(&headers, &registry, "peer") {
            IdentityStep::CheckApiKey { token: asked, .. } => assert_eq!(asked, token),
            _ => panic!("expected the API keys to be asked"),
        }
    }
    let plain = state(AuthMode::Trust, false);
    assert!(matches!(
        resolve_identity(&authorization(b"Bearer a.b.c"), &plain, "peer"),
        IdentityStep::CheckApiKey { .. }
    ));
    assert_eq!(refusal(api_key_checked(None)), "invalid bearer token");
    assert!(matches!(
        jwt_checked("t".into(), "p".into(), Some(identity())),
        IdentityStep::Done(Ok(i)) if i.user_id == 42
    ));
    assert!(matches!(
        api_key_checked(Some(identity())),
        IdentityStep::Done(Ok(i)) if i.username == "alice"
    ));
}

#[test]
fn requests_without_tokens_need_trust() {
    let empty = HeaderMap::new();
    let trust = state(AuthMode::Trust, true);
    assert!(matches!(resolve_identity(&empty, &trust, "p"), IdentityStep::FindTrustIdentity));
    for value in [&b"Basic dXNlcg=="[..], b"bearer x", b"Bearer"] {
        assert!(matches!(
            resolve_identity(&authorization(value), &trust, "p"),
            IdentityStep::FindTrustIdentity
        ));
    }
    assert_eq!(
        refusal(trust_identity_found(None)),
        "configured trust identity is unavailable"
    );
    assert!(matches!(trust_identity_found(Some(identity())), IdentityStep::Done(Ok(_))));
    for mode in [AuthMode::Password, AuthMode::Certificate] {
        assert_eq!(
            refusal(resolve_identity(&empty, &state(mode, true), "p")),
            "missing Authorization: Bearer <token> header"
        );
    }
    assert_eq!(
        refusal(resolve_identity(&authorization(b"Bearer \xc3\xa9"), &trust, "p")),
        "invalid authorization header encoding"
    );
}

#[test]
fn the_first_authorization_header_counts() {
    let mut headers = authorization(b"Bearer first");
    headers.append("authorization", HeaderValue::from_static("Bearer second"));
    match resolve_identity(&headers, &state(AuthMode::Password, false), "p") {
        IdentityStep::CheckApiKey { token, .. } => assert_eq!(token, "first"),
        _ => panic!("expected the API keys to be asked"),
    }
}

#[test]
fn claims_come_before_identities() {
    let registry = state(AuthMode::Password, true);
    let mut headers = authorization(b"Bearer a.b.c");
    headers.insert("x-on-deny", HeaderValue::from_static("silent"));
    match resolve_auth(&headers, &registry, "p") {
        AuthStep::CheckClaims { token } => assert_eq!(token, "a.b.c"),
        _ => panic!("expected the claims to be checked"),
    }
    match claims_checked(&headers, &registry, "p", Some((identity(), auth_context()))) {
        AuthStep::Done(Ok((i, context))) => {
            assert_eq!(i.user_id, 42);
            assert!(matches!(context.on_deny_override, Some(DenyMode::Silent)));
        }
        _ => panic!("expected to be done"),
    }
    match claims_checked(&headers, &registry, "p", None) {
        AuthStep::FindIdentity(IdentityStep::CheckJwt { token, peer_addr }) => {
            assert_eq!((token.as_str(), peer_addr.as_str()), ("a.b.c", "p"));
        }
        _ => panic!("expected the identity to be looked for"),
    }
    match resolve_auth(&authorization(b"Bearer key"), &registry, "p") {
        AuthStep::FindIdentity(IdentityStep::CheckApiKey { token, peer_addr }) => {
            assert_eq!((token.as_str(), peer_addr.as_str()), ("key", "p"));
        }
        _ => panic!("expected the API keys to be asked"),
    }
    assert!(matches!(
        resolve_auth(&HeaderMap::new(), &registry, "p"),
        AuthStep::FindIdentity(IdentityStep::Done(Err(_)))
    ));
    match context_built(&headers, Ok((identity(), auth_context()))) {
        AuthStep::Done(Ok((_, context))) => {
            assert!(matches!(context.on_deny_override, Some(DenyMode::Silent)));
        }
        _ => panic!("expected to be done"),
    }
    assert!(matches!(
        context_built(&headers, Err(ApiError::Unauthorized("no".into()))),
        AuthStep::Done(Err(ApiError::Unauthorized(m))) if m == "no"
    ));
    assert_eq!(ResolvedIdentity(identity()).tenant_id(), TenantId::new(7));
    assert_eq!(ResolvedAuth(identity(), auth_context()).tenant_id(), TenantId::new(7));
}

#[test]
fn administrators_are_bound_to_their_databases() {
    let message = |i: &AuthenticatedIdentity, id| {
        match require_tenant_admin_for_database(i, DatabaseId::new(id)) {
            Ok(()) => None,
            Err(ApiError::Forbidden(message)) => Some(message),
            Err(other) => panic!("unexpected {other:?}"),
        }
    };
    let mut admin = identity();
    assert_eq!(
        message(&admin, 1).as_deref(),
        Some("WASM uploads require tenant_admin privileges")
    );
    admin.roles.push(Role::TenantAdmin);
    assert_eq!(message(&admin, 1), None);
    admin.databases = DatabaseSet::Only(vec![DatabaseId::new(3)]);
    assert_eq!(message(&admin, 3), None);
    assert_eq!(
        message(&admin, 10).as_deref(),
        Some("permission denied for selected database 10")
    );
    let mut superuser = identity();
    superuser.is_superuser = true;
    superuser.databases = DatabaseSet::Only(Vec::new());
    assert_eq!(message(&superuser, 10), None);
}

#[test]
fn orchestrated_tasks_have_their_routes() {
    let route = |op| route_task(&PhysicalPlan::Document(op), true);
    assert_eq!(route(DocumentOp::InsertSelect), TaskRoute::InsertSelect);
    let merge = |resolve_only, resolved_inserts| DocumentOp::Merge { resolve_only, resolved_inserts };
    assert_eq!(route(merge(false, false)), TaskRoute::Merge);
    assert_eq!(route(merge(true, false)), TaskRoute::Gateway);
    assert_eq!(route(merge(false, true)), TaskRoute::Gateway);
    let join = |resolve_only, source_rows| DocumentOp::UpdateFromJoin {
        returning: true,
        resolve_only,
        source_rows,
    };
    assert_eq!(route(join(false, false)), TaskRoute::UpdateFromJoin);
    assert_eq!(route(join(true, false)), TaskRoute::Gateway);
    assert_eq!(route(join(false, true)), TaskRoute::Gateway);
    assert_eq!(route_task(&PhysicalPlan::Kv(KvOp::Get), true), TaskRoute::Gateway);
    assert_eq!(route_task(&PhysicalPlan::Kv(KvOp::Get), false), TaskRoute::Local);
}

fn known() -> Result<(AuthenticatedIdentity, AuthContext), ApiError> {
    Ok((identity(), auth_context()))
}

fn unknown() -> Result<(AuthenticatedIdentity, AuthContext), ApiError> {
    Err(ApiError::Unauthorized("who".into()))
}

#[test]
fn the_header_names_the_database_first() {
    let name = |value: Option<&[u8]>, parameter: Option<&str>| {
        let mut headers = HeaderMap::new();
        if let Some(value) = value {
            let value = HeaderValue::from_bytes(value).expect("valid header value");
            headers.insert("X-NodeDB-Database", value);
        }
        let parameter = parameter.map(String::from);
        let streamed = match query_ndjson(known(), &headers, parameter.clone(), "x".into()) {
            NdjsonStep::ResolveDatabase(_, choice) => choice,
            _ => panic!("expected a database to be resolved"),
        };
        match query::<u32>(known(), &headers, parameter, "x".into()) {
            QueryStep::ResolveDatabase(_, choice) => match (choice, streamed) {
                (DatabaseChoice::Named(a), DatabaseChoice::Named(b)) => {
                    assert_eq!(a, b);
                    a
                }
                (DatabaseChoice::Unnamed, DatabaseChoice::Unnamed) => "(none)".to_string(),
                (DatabaseChoice::Unreadable, DatabaseChoice::Unreadable) => "(bad)".to_string(),
                _ => panic!("expected the same choice"),
            },
            _ => panic!("expected a database to be resolved"),
        }
    };
    assert_eq!(name(Some(b"sales"), Some("other")), "sales");
    assert_eq!(name(Some(b"sales"), None), "sales");
    assert_eq!(name(None, Some("other")), "other");
    assert_eq!(name(None, None), "(none)");
    assert_eq!(name(Some(b"\xff"), Some("other")), "(bad)");
}

fn selected(sql: &str) -> Selected {
    match query::<u32>(known(), &HeaderMap::new(), None, sql.into()) {
        QueryStep::ResolveDatabase(request, _) => {
            match database_resolved::<u32>(request, Ok(DatabaseId::new(3))) {
                QueryStep::AuthorizeDatabase(s) => s,
                _ => panic!("expected the database to be authorized"),
            }
        }
        _ => panic!("expected a database to be resolved"),
    }
}

fn failure(step: QueryStep<u32>) -> ApiError {
    match step {
        QueryStep::Respond(Err(e)) => e,
        _ => panic!("expected a failure"),
    }
}

fn rows(step: QueryStep<u32>) -> Vec<u32> {
    match step {
        QueryStep::Respond(Ok(rows)) => rows,
        _ => panic!("expected rows"),
    }
}

#[test]
fn requests_go_through_every_check() {
    let e = failure(query(unknown(), &HeaderMap::new(), None, "SELECT 1".into()));
    assert_eq!(e.into_response().status, 401);
    match query::<u32>(known(), &HeaderMap::new(), None, "SELECT 1".into()) {
        QueryStep::ResolveDatabase(request, _) => {
            let e = failure(database_resolved(request, Err(ApiError::BadRequest("no".into()))));
            assert_eq!(e.into_response().status, 400);
        }
        _ => panic!("expected a database to be resolved"),
    }
    let e = failure(database_authorized(selected("x"), Err(error(ErrorKind::RejectedAuthz))));
    assert_eq!(e.into_response().status, 403);
    match database_authorized::<u32>(selected(" CREATE x ;\n"), Ok(())) {
        QueryStep::DispatchDdl(s, sql) => {
            assert_eq!(sql, "CREATE x ;");
            assert_eq!(s.database_id, DatabaseId::new(3));
            assert_eq!(rows(ddl_dispatched(s, Some(Ok(vec![5])))), vec![5]);
        }
        _ => panic!("expected a command to be tried"),
    }
    let denied = DdlError { sqlstate: "42501".into(), message: "denied".into() };
    let e = failure(ddl_dispatched(selected("x"), Some(Err(denied))));
    assert_eq!(e.into_response().status, 403);
    let s = match ddl_dispatched::<u32>(selected(" SELECT 1 "), None) {
        QueryStep::CheckQuota(s) => s,
        _ => panic!("expected the quota to be checked"),
    };
    let reply = failure(quota_checked(selected("x"), Err(error(ErrorKind::Other)))).into_response();
    assert_eq!((reply.status, reply.retry_after.as_deref()), (429, Some("1")));
    match quota_checked::<u32>(s, Ok(())) {
        QueryStep::PlanStatement(s) => {
            assert_eq!(s.request.sql, " SELECT 1 ");
            assert_eq!(s.request.auth_ctx.database_id, Some(DatabaseId::new(3)));
            let e = failure(statement_planned(s, Err(error(ErrorKind::PlanError)), true));
            assert_eq!(e.into_response().status, 400);
        }
        _ => panic!("expected the statement to be planned"),
    }
    assert!(rows(statement_planned(selected("x"), Ok(Vec::new()), true)).is_empty());
}

fn plans() -> Vec<PhysicalPlan> {
    vec![
        PhysicalPlan::Kv(KvOp::Get),
        PhysicalPlan::Document(DocumentOp::InsertSelect),
        PhysicalPlan::Meta,
    ]
}

fn run(outcomes: Vec<TaskOutcome<u32>>, gateway: bool) -> (Vec<TaskRoute>, QueryStep<u32>) {
    let mut routes = Vec::new();
    let mut step = statement_planned(selected("x"), Ok(plans()), gateway);
    for outcome in outcomes {
        match step {
            QueryStep::RunTask(running, route) => {
                routes.push(route);
                step = task_ran(running, outcome, gateway);
            }
            _ => panic!("expected a task to be run"),
        }
    }
    (routes, step)
}

#[test]
fn tasks_are_run_in_order() {
    let (routes, step) = run(
        vec![
            TaskOutcome::Payloads(vec![
                ShapedPayload::Rows(vec![1, 2]),
                ShapedPayload::Empty,
                ShapedPayload::Passthrough(3),
            ]),
            TaskOutcome::Response {
                ok: true,
                error_code: Some("unused".into()),
                payload: ShapedPayload::Empty,
            },
            TaskOutcome::Response {
                ok: true,
                error_code: None,
                payload: ShapedPayload::Rows(vec![4]),
            },
        ],
        true,
    );
    assert_eq!(routes, vec![TaskRoute::Gateway, TaskRoute::InsertSelect, TaskRoute::Gateway]);
    assert_eq!(rows(step), vec![1, 2, 3, 4]);
    let (routes, _) = run(vec![TaskOutcome::Payloads(Vec::new())], false);
    assert_eq!(routes, vec![TaskRoute::Local]);
}

#[test]
fn the_first_failure_ends_a_statement() {
    let gateway = GatewayError { status: 503, message: "no leader".into() };
    let (_, step) = run(vec![TaskOutcome::Failed(gateway)], true);
    let reply = failure(step).into_response();
    assert_eq!((reply.status, reply.message.as_str()), (503, "no leader"));

    let (_, step) = run(
        vec![TaskOutcome::Payloads(vec![
            ShapedPayload::Rows(vec![1]),
            ShapedPayload::Failed("first".into()),
            ShapedPayload::Failed("second".into()),
        ])],
        true,
    );
    let reply = failure(step).into_response();
    assert_eq!((reply.status, reply.message.as_str()), (500, "first"));

    for (code, message) in [(Some("Conflict".to_string()), "Conflict"), (None, "unknown error")] {
        let (_, step) = run(
            vec![
                TaskOutcome::Payloads(Vec::new()),
                TaskOutcome::Response {
                    ok: false,
                    error_code: code.clone(),
                    payload: ShapedPayload::Rows(vec![1]),
                },
            ],
            true,
        );
        assert_eq!(failure(step).into_response().message, message);
        assert!(matches!(response_error(code), ApiError::Internal(m) if m == message));
    }
}

#[test]
fn responses_add_their_rows() {
    let mut rows = vec![1];
    assert!(append_response(&mut rows, true, None, ShapedPayload::Rows(vec![2, 3])).is_ok());
    assert!(append_response(&mut rows, true, None, ShapedPayload::Passthrough(4)).is_ok());
    assert!(append_response(&mut rows, true, None, ShapedPayload::Empty).is_ok());
    assert!(append_response(&mut rows, false, None, ShapedPayload::Rows(vec![9])).is_err());
    assert_eq!(rows, vec![1, 2, 3, 4]);
}

#[test]
fn errors_are_json_texts() {
    assert_eq!(error_json("plain é"), "{\"error\":\"plain é\"}");
    assert_eq!(
        error_json("\"\\/\u{8}\t\n\u{c}\r\u{1}\u{1f}\u{7f}"),
        "{\"error\":\"\\\"\\\\/\\b\\t\\n\\f\\r\\u0001\\u001f\u{7f}\"}"
    );
    assert_eq!(error_json(""), "{\"error\":\"\"}");
}

fn reply(step: NdjsonStep) -> NdjsonReply {
    match step {
        NdjsonStep::Respond(reply) => reply,
        _ => panic!("expected a reply"),
    }
}

fn status(step: NdjsonStep) -> u16 {
    match reply(step) {
        NdjsonReply::Error(e) => e.into_response().status,
        _ => panic!("expected an error"),
    }
}

#[test]
fn streams_go_through_every_check() {
    assert_eq!(status(query_ndjson(unknown(), &HeaderMap::new(), None, "x".into())), 401);
    let request = match query_ndjson(known(), &HeaderMap::new(), None, " SELECT 1\n".into()) {
        NdjsonStep::ResolveDatabase(request, _) => request,
        _ => panic!("expected a database to be resolved"),
    };
    let s = match stream_database_resolved(request, Ok(DatabaseId::new(3))) {
        NdjsonStep::AuthorizeDatabase(s) => s,
        _ => panic!("expected the database to be authorized"),
    };
    let (s, sql) = match stream_database_authorized(s, Ok(())) {
        NdjsonStep::CheckQuota(s, sql) => (s, sql),
        _ => panic!("expected the quota to be checked"),
    };
    assert_eq!(sql, "SELECT 1");
    let (s, sql) = match stream_quota_checked(s, sql, Ok(())) {
        NdjsonStep::PlanStatement(s, sql) => (s, sql),
        _ => panic!("expected the statement to be planned"),
    };
    assert_eq!(sql, "SELECT 1");
    assert_eq!(s.request.auth_ctx.database_id, Some(DatabaseId::new(3)));
    match stream_planned(s, Ok(plans())) {
        NdjsonStep::OpenStream(s, plans) => {
            assert_eq!(plans.len(), 3);
            assert!(matches!(
                reply(stream_opened(s, plans, Ok(true), true)),
                NdjsonReply::Stream
            ));
        }
        _ => panic!("expected a stream to be opened"),
    }
}

#[test]
fn streams_are_refused() {
    let request = match query_ndjson(known(), &HeaderMap::new(), None, "x".into()) {
        NdjsonStep::ResolveDatabase(request, _) => request,
        _ => panic!("expected a database to be resolved"),
    };
    assert_eq!(status(stream_database_resolved(request, Err(ApiError::BadRequest("n".into())))), 400);
    let denied = Err(error(ErrorKind::RejectedAuthz));
    assert_eq!(status(stream_database_authorized(selected(""), denied)), 403);
    assert!(matches!(
        reply(stream_database_authorized(selected(" \n\t"), Ok(()))),
        NdjsonReply::EmptySql
    ));
    let over = Error { kind: ErrorKind::Other, text: "quota \"q\"".into() };
    match reply(stream_quota_checked(selected("x"), "x".into(), Err(over))) {
        NdjsonReply::QuotaExceeded { body } => assert_eq!(body, "{\"error\":\"quota \\\"q\\\"\"}"),
        _ => panic!("expected the quota to be exceeded"),
    }
    assert_eq!(status(stream_planned(selected("x"), Err(error(ErrorKind::PlanError)))), 400);
    let failed = Err(error(ErrorKind::Other));
    assert_eq!(status(stream_opened(selected("x"), plans(), failed, true)), 500);
}

#[test]
fn answers_have_their_status_and_media_type() {
    let sent = |reply: NdjsonReply| {
        let r = reply.into_response();
        let body = match r.body {
            ResponseBody::Error(message) => format!("error {message}"),
            ResponseBody::Text(text) => text,
            ResponseBody::Stream => "(stream)".to_string(),
        };
        (r.status, r.content_type, r.retry_after, body)
    };
    let lines = "application/x-ndjson";
    assert_eq!(sent(NdjsonReply::Body("1\n".into())), (200, lines, None, "1\n".into()));
    assert_eq!(sent(NdjsonReply::Stream), (200, lines, None, "(stream)".into()));
    assert_eq!(
        sent(NdjsonReply::EmptySql),
        (400, "text/plain; charset=utf-8", None, "empty SQL".into())
    );
    assert_eq!(
        sent(NdjsonReply::QuotaExceeded { body: "{}".into() }),
        (429, "application/json", Some("1".into()), "{}".into())
    );
    assert_eq!(
        sent(NdjsonReply::Error(ApiError::Forbidden("no".into()))),
        (403, "application/json", None, "error no".into())
    );
    let limited = ApiError::RateLimited { message: "slow".into(), retry_after_secs: 7 };
    assert_eq!(
        sent(NdjsonReply::Error(limited)),
        (429, "application/json", Some("7".into()), "error slow".into())
    );
}

#[test]
fn every_task_adds_its_lines() {
    let outcomes = vec![
        LinesOutcome::Payloads(vec![
            ShapedLines::Rows(vec!["{\"a\":1}".into(), "2".into()]),
            ShapedLines::Empty,
            ShapedLines::Failed("bad\nrow".into()),
            ShapedLines::Passthrough("raw".into()),
        ]),
        LinesOutcome::Failed("gone".into()),
        LinesOutcome::Payloads(vec![ShapedLines::Rows(vec!["3".into()])]),
    ];
    let mut routes = Vec::new();
    let mut step = stream_opened(selected("x"), plans(), Ok(false), false);
    for outcome in outcomes {
        match step {
            NdjsonStep::RunTask(running, route) => {
                routes.push(route);
                step = stream_task_ran(running, outcome, false);
            }
            _ => panic!("expected a task to be run"),
        }
    }
    assert_eq!(routes, vec![TaskRoute::Local, TaskRoute::InsertSelect, TaskRoute::Local]);
    match reply(step) {
        NdjsonReply::Body(body) => assert_eq!(
            body,
            "{\"a\":1}\n2\n{\"error\":\"bad\\nrow\"}\nraw{\"error\":\"gone\"}\n3\n"
        ),
        _ => panic!("expected lines"),
    }
    match reply(stream_opened(selected("x"), Vec::new(), Ok(false), false)) {
        NdjsonReply::Body(body) => assert!(body.is_empty()),
        _ => panic!("expected lines"),
    }
}
