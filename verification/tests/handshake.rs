use nodedb_control::error::{Error, ErrorKind};
use nodedb_control::identity::{AuthMethod, AuthenticatedIdentity, DatabaseId, DatabaseSet, Role, TenantId};
use nodedb_control::sync::handshake::{
    producer_owner_matches, warn_if_no_write_authority, HandshakeStep, ProducerRegistration,
    Services,
};
use nodedb_control::sync::session::{SyncSession, TrackedCollection};
use nodedb_control::sync::wire::{HandshakeAckMsg, HandshakeMsg, WireVersions};
use nodedb_control::text_map::TextMap;

const VERSIONS: WireVersions = WireVersions {
    oldest: 1,
    newest: 4,
    current: 4,
    too_old: "too old",
    too_new: "too new",
};
const NO_SERVER: Services =
    Services { available: false, producer_registry: false, payloads_authenticated: false };
const SERVER: Services =
    Services { available: true, producer_registry: false, payloads_authenticated: false };
const WITH_REGISTRY: Services =
    Services { available: true, producer_registry: true, payloads_authenticated: false };
const WITH_SIGNING: Services =
    Services { available: true, producer_registry: false, payloads_authenticated: true };

fn make_handshake(wire_version: u16) -> HandshakeMsg {
    HandshakeMsg {
        jwt_token: String::new(),
        vector_clock: TextMap::new(),
        subscribed_shapes: Vec::new(),
        client_version: "test".into(),
        lite_id: String::new(),
        epoch: 0,
        wire_version,
    }
}

fn token_handshake(token: &str) -> HandshakeMsg {
    HandshakeMsg { jwt_token: token.into(), ..make_handshake(4) }
}

fn lite_handshake(epoch: u64) -> HandshakeMsg {
    HandshakeMsg { lite_id: "fenced-lite-id".into(), epoch, ..make_handshake(4) }
}

fn superuser() -> AuthenticatedIdentity {
    let mut identity = AuthenticatedIdentity::new_regular(
        1,
        "nodedb",
        TenantId::new(3),
        AuthMethod::Trust,
        Vec::new(),
        None,
        DatabaseSet::All,
    );
    identity.is_superuser = true;
    identity
}

fn replica() -> AuthenticatedIdentity {
    AuthenticatedIdentity::new_regular(
        42,
        "lite-replica",
        TenantId::new(7),
        AuthMethod::Jwt,
        vec![Role::ReadWrite, Role::DatabaseEditor(DatabaseId::new(12)), Role::Custom("x".into())],
        None,
        DatabaseSet::All,
    )
}

fn begin(session: &mut SyncSession, msg: HandshakeMsg, services: Services) -> HandshakeStep {
    session.handle_handshake(msg, VERSIONS, TextMap::new(), services, 99)
}

fn reply(step: HandshakeStep) -> HandshakeAckMsg {
    match step {
        HandshakeStep::Reply(ack) => ack,
        _ => panic!("expected a reply"),
    }
}

fn trusted(session: &mut SyncSession, msg: HandshakeMsg, services: Services) -> HandshakeStep {
    match begin(session, msg, services) {
        HandshakeStep::ResolveTrustIdentity(attempt) => {
            session.trust_identity_resolved(attempt, Some(superuser()))
        }
        _ => panic!("expected the trust identity to be asked for"),
    }
}

fn failed(kind: ErrorKind) -> Error {
    Error { kind, text: "registry".into() }
}

fn owner_mismatch() -> ErrorKind {
    ErrorKind::BadRequest { detail: "producer belongs to another owner".into() }
}

fn record(epoch: u64) -> ProducerRegistration {
    ProducerRegistration {
        producer_id: 5,
        tenant_id: 3,
        user_id: 1,
        current_epoch: epoch,
        created_ms: 0,
    }
}

fn assert_unbound(session: &SyncSession) {
    assert!(!session.authenticated);
    assert!(session.tenant_id.is_none());
    assert!(session.username.is_none());
    assert!(session.identity.is_none());
    assert!(session.client_clock.is_empty());
    assert!(session.server_clock.is_empty());
    assert!(session.subscribed_shapes.is_empty());
    assert_eq!(session.last_seen_lsn, 0);
    assert_eq!(session.producer_id, 0);
    assert_eq!(session.accepted_epoch, 0);
    assert!(session.delta_signing_key.is_none());
    assert!(session.device_metadata.client_version.is_empty());
    assert!(session.device_metadata.remote_addr.is_empty());
    assert_eq!(session.device_metadata.peer_id, 0);
    assert!(session.tracked_collections.is_empty());
    assert!(session.announced_collections.is_empty());
}

fn seed(session: &mut SyncSession) {
    let mut peers = TextMap::new();
    peers.insert("peer-1".into(), 4);
    session.client_clock.insert("orders".into(), peers);
    session.server_clock.insert("orders".into(), 8);
    session.subscribed_shapes.push("orders-shape".into());
    session.last_seen_lsn = 8;
    session.producer_id = 42;
    session.accepted_epoch = 7;
    session.delta_signing_key = Some([9; 32]);
    session.device_metadata.remote_addr = "127.0.0.1:1234".into();
    session.device_metadata.peer_id = 99;
    session.tracked_collections.push(TrackedCollection { database: 1, collection: "orders".into() });
    session.announced_collections.push("orders".into());
}

#[test]
fn empty_token_uses_configured_durable_trust_identity() {
    let mut session = SyncSession::new("test-session".into());
    let ack = reply(trusted(&mut session, make_handshake(4), SERVER));

    assert!(ack.success, "configured trust handshake should succeed");
    let identity = session.identity.expect("durable trust identity");
    assert_eq!(identity.username, "nodedb");
    assert_ne!(identity.user_id, 0);
    assert!(identity.is_superuser);
}

#[test]
fn empty_token_without_configured_identity_fails_closed() {
    let mut session = SyncSession::new("test-session".into());
    let ack = reply(begin(&mut session, make_handshake(4), NO_SERVER));

    assert!(!ack.success);
    assert!(!session.authenticated);
    assert!(session.identity.is_none());
}

#[test]
fn handshake_rejects_wire_version_zero() {
    let mut session = SyncSession::new("test-session".into());
    let ack = reply(begin(&mut session, make_handshake(0), NO_SERVER));

    assert!(
        !ack.success,
        "wire_version=0 must be rejected, got success=true"
    );
    let error = ack.error.expect("error message must be present");
    assert!(
        error.contains("wire version") || error.contains("incompatible"),
        "error message should mention wire version, got: {error}"
    );
}

#[test]
fn producer_owner_binding_rejects_cross_tenant_and_cross_user_reuse() {
    let registration = ProducerRegistration {
        producer_id: 1,
        tenant_id: 7,
        user_id: 11,
        current_epoch: 1,
        created_ms: 0,
    };

    assert!(producer_owner_matches(&registration, 7, 11));
    assert!(!producer_owner_matches(&registration, 8, 11));
    assert!(!producer_owner_matches(&registration, 7, 12));
}

#[test]
fn without_registry_a_token_still_uses_the_static_validator() {
    let mut session = SyncSession::new("no-registry".into());
    let ack = match begin(&mut session, token_handshake("header.payload.signature"), NO_SERVER) {
        HandshakeStep::ValidateToken(attempt) => {
            assert_eq!(attempt.msg.jwt_token, "header.payload.signature");
            reply(session.token_validated(attempt, Err("no algorithm is pinned".into())))
        }
        _ => panic!("expected the token to be validated"),
    };

    assert!(!ack.success);
    assert!(!session.authenticated);
    assert!(session.identity.is_none());
    assert_eq!(ack.error.as_deref(), Some("no algorithm is pinned"));
}

#[test]
fn registry_verified_token_is_accepted_and_binds_provider_tenant() {
    let mut session = SyncSession::new("registry-ok".into());
    let step = session.handle_handshake_verified(
        token_handshake("a.b.c"),
        Ok(replica()),
        VERSIONS,
        TextMap::new(),
        NO_SERVER,
        1,
    );
    let ack = reply(step);

    assert!(ack.success, "registry-verified token must be accepted: {:?}", ack.error);
    assert!(session.authenticated);
    let identity = session.identity.expect("verified identity");
    assert_eq!(identity.username, "lite-replica");
    assert_eq!(
        identity.tenant_id.as_u64(),
        7,
        "tenant must come from provider config, never from the token claim"
    );
    assert_eq!(session.tenant_id.map(|t| t.as_u64()), Some(7));
}

#[test]
fn token_signed_by_unknown_key_is_rejected() {
    let mut session = SyncSession::new("registry-forged".into());
    let step = session.handle_handshake_verified(
        token_handshake("a.b.c"),
        Err("unknown key".into()),
        VERSIONS,
        TextMap::new(),
        NO_SERVER,
        1,
    );
    let ack = reply(step);

    assert!(!ack.success, "a token signed by an unknown key must be rejected");
    assert!(ack.error.is_some());
    assert!(!session.authenticated);
    assert!(session.identity.is_none());
    assert!(session.tenant_id.is_none());
}

#[test]
fn malformed_handshake_clears_binding() {
    let mut session = SyncSession::new("malformed-handshake-session".into());
    let valid = reply(trusted(&mut session, make_handshake(4), SERVER));
    assert!(valid.success);
    assert!(session.authenticated);
    seed(&mut session);
    session.mutations_processed = 6;

    session.clear_handshake_binding();
    let ack = session.malformed_handshake_reject_frame(&VERSIONS);
    assert!(!ack.success);
    assert!(!ack.fork_detected);
    assert_eq!(ack.error.as_deref(), Some("malformed handshake"));
    assert_eq!(ack.session_id, "malformed-handshake-session");
    assert_unbound(&session);
    assert_eq!(session.mutations_processed, 6);
    assert_eq!(session.last_activity_ms, 99);
}

#[test]
fn stale_lite_rehandshake_clears_trust_binding() {
    let mut session = SyncSession::new("high-epoch-session".into());
    // A new replica: its record holds the epoch that it came with.
    let ack = match trusted(&mut session, lite_handshake(9), WITH_REGISTRY) {
        HandshakeStep::GetOrRegister(c) => match session.producer_registered(c, Ok(record(9))) {
            HandshakeStep::ProposeRegister(c, r) => match session.registration_proposed(c, r, true) {
                HandshakeStep::ProposeFence(c, r) => reply(session.fence_proposed(c, r, true)),
                _ => panic!("expected the fence to be replicated"),
            },
            _ => panic!("expected the record to be replicated"),
        },
        _ => panic!("expected the record to be asked for"),
    };
    assert!(ack.success, "higher epoch must be accepted");
    assert!(session.authenticated);
    assert_ne!(session.producer_id, 0);
    assert_eq!(session.accepted_epoch, 9);
    assert_eq!(ack.producer_id, 5);
    seed(&mut session);

    // The same replica with an epoch behind its record.
    let ack = match trusted(&mut session, lite_handshake(3), WITH_REGISTRY) {
        HandshakeStep::GetOrRegister(c) => match session.producer_registered(c, Ok(record(9))) {
            HandshakeStep::ProposeRegister(c, r) => reply(session.registration_proposed(c, r, true)),
            _ => panic!("expected the record to be replicated"),
        },
        _ => panic!("expected the record to be asked for"),
    };
    assert!(!ack.success);
    assert!(ack.fork_detected);
    assert_eq!(
        ack.error.as_deref(),
        Some("FORK_DETECTED: stale epoch — regenerate LiteId and reconnect")
    );
    assert_unbound(&session);
}

#[test]
fn nothing_is_bound_before_the_reply() {
    let mut session = SyncSession::new("s".into());
    seed(&mut session);
    session.authenticated = true;
    session.identity = Some(superuser());
    match begin(&mut session, token_handshake("a.b.c"), SERVER) {
        HandshakeStep::ValidateToken(_) => assert_unbound(&session),
        _ => panic!("expected the token to be validated"),
    }
    seed(&mut session);
    let c = match trusted(&mut session, lite_handshake(9), WITH_REGISTRY) {
        HandshakeStep::GetOrRegister(c) => c,
        _ => panic!("expected the record to be asked for"),
    };
    assert_unbound(&session);
    match session.producer_registered(c, Ok(record(4))) {
        HandshakeStep::ProposeRegister(_, _) => assert_unbound(&session),
        _ => panic!("expected the record to be replicated"),
    }
}

#[test]
fn every_step_hands_on_what_came() {
    let mut session = SyncSession::new("s".into());
    let found = ProducerRegistration { created_ms: 77, ..record(4) };
    let step = match begin(&mut session, token_handshake("a.b.c"), WITH_SIGNING) {
        HandshakeStep::ValidateToken(attempt) => {
            assert_eq!(attempt.msg.jwt_token, "a.b.c");
            session.token_validated(attempt, Ok(replica()))
        }
        _ => panic!("expected the token to be validated"),
    };
    match step {
        HandshakeStep::LoadSigningKey(g) => {
            assert_eq!(g.candidate.identity.user_id, replica().user_id);
            assert!(g.candidate.by_token);
        }
        _ => panic!("expected the signing key to be loaded"),
    }
    let step = match trusted(&mut session, lite_handshake(9), WITH_REGISTRY) {
        HandshakeStep::GetOrRegister(c) => {
            assert_eq!((c.attempt.msg.lite_id.as_str(), c.attempt.msg.epoch), ("fenced-lite-id", 9));
            assert_eq!(c.identity.user_id, superuser().user_id);
            assert!(!c.by_token);
            session.producer_registered(c, Ok(found))
        }
        _ => panic!("expected the record to be asked for"),
    };
    let step = match step {
        HandshakeStep::ProposeRegister(c, r) => {
            assert_eq!((c.attempt.msg.lite_id.as_str(), r), ("fenced-lite-id", found));
            session.registration_proposed(c, r, true)
        }
        _ => panic!("expected the record to be replicated"),
    };
    let step = match step {
        HandshakeStep::Fence(c, r) => {
            assert_eq!((c.attempt.msg.lite_id.as_str(), r), ("fenced-lite-id", found));
            session.producer_fenced(c, r, true)
        }
        _ => panic!("expected the record to be fenced"),
    };
    match step {
        HandshakeStep::ProposeFence(c, r) => {
            assert_eq!((c.attempt.msg.lite_id.as_str(), r), ("fenced-lite-id", found));
        }
        _ => panic!("expected the fence to be replicated"),
    }
}

#[test]
fn a_higher_epoch_is_fenced_first() {
    let mut session = SyncSession::new("s".into());
    let step = match trusted(&mut session, lite_handshake(9), WITH_REGISTRY) {
        HandshakeStep::GetOrRegister(c) => session.producer_registered(c, Ok(record(4))),
        _ => panic!("expected the record to be asked for"),
    };
    let step = match step {
        HandshakeStep::ProposeRegister(c, r) => session.registration_proposed(c, r, true),
        _ => panic!("expected the record to be replicated"),
    };
    let step = match step {
        HandshakeStep::Fence(c, r) => session.producer_fenced(c, r, true),
        _ => panic!("expected the record to be fenced"),
    };
    let ack = match step {
        HandshakeStep::ProposeFence(c, r) => reply(session.fence_proposed(c, r, true)),
        _ => panic!("expected the fence to be replicated"),
    };
    assert!(ack.success);
    assert_eq!((ack.producer_id, ack.accepted_epoch), (5, 9));
}

fn assert_retryable(session: &SyncSession, ack: HandshakeAckMsg) {
    assert!(!ack.success);
    assert!(!ack.fork_detected);
    assert_eq!(
        ack.error.as_deref(),
        Some("SYNC_UNAVAILABLE: transient server error — retry the handshake")
    );
    assert_unbound(session);
}

#[test]
fn failing_services_are_retryable_and_never_forks() {
    let mut session = SyncSession::new("s".into());
    let ack = match trusted(&mut session, lite_handshake(9), WITH_REGISTRY) {
        HandshakeStep::GetOrRegister(c) => {
            reply(session.producer_registered(c, Err(failed(ErrorKind::Other))))
        }
        _ => panic!("expected the record to be asked for"),
    };
    assert_retryable(&session, ack);

    let ack = match trusted(&mut session, lite_handshake(9), WITH_REGISTRY) {
        HandshakeStep::GetOrRegister(c) => match session.producer_registered(c, Ok(record(10))) {
            HandshakeStep::ProposeRegister(c, r) => reply(session.registration_proposed(c, r, false)),
            _ => panic!("expected the record to be replicated"),
        },
        _ => panic!("expected the record to be asked for"),
    };
    assert_retryable(&session, ack);

    let ack = match trusted(&mut session, lite_handshake(9), WITH_REGISTRY) {
        HandshakeStep::GetOrRegister(c) => match session.producer_registered(c, Ok(record(8))) {
            HandshakeStep::ProposeRegister(c, r) => match session.registration_proposed(c, r, true) {
                HandshakeStep::Fence(c, r) => reply(session.producer_fenced(c, r, false)),
                _ => panic!("expected the record to be fenced"),
            },
            _ => panic!("expected the record to be replicated"),
        },
        _ => panic!("expected the record to be asked for"),
    };
    assert_retryable(&session, ack);

    let ack = match trusted(&mut session, lite_handshake(9), WITH_REGISTRY) {
        HandshakeStep::GetOrRegister(c) => match session.producer_registered(c, Ok(record(9))) {
            HandshakeStep::ProposeRegister(c, r) => match session.registration_proposed(c, r, true) {
                HandshakeStep::ProposeFence(c, r) => reply(session.fence_proposed(c, r, false)),
                _ => panic!("expected the fence to be replicated"),
            },
            _ => panic!("expected the record to be replicated"),
        },
        _ => panic!("expected the record to be asked for"),
    };
    assert_retryable(&session, ack);
}

#[test]
fn a_record_of_another_owner_is_a_fork() {
    let mut session = SyncSession::new("s".into());
    let ack = match trusted(&mut session, lite_handshake(9), WITH_REGISTRY) {
        HandshakeStep::GetOrRegister(c) => {
            reply(session.producer_registered(c, Err(failed(owner_mismatch()))))
        }
        _ => panic!("expected the record to be asked for"),
    };
    assert!(!ack.success && ack.fork_detected);
    assert_unbound(&session);
}

#[test]
fn only_lite_replicas_meet_the_registry() {
    let mut session = SyncSession::new("s".into());
    assert!(reply(trusted(&mut session, make_handshake(4), WITH_REGISTRY)).success);
    let mut msg = lite_handshake(0);
    msg.epoch = 0;
    assert!(reply(trusted(&mut session, msg, WITH_REGISTRY)).success);
    let ack = reply(trusted(&mut session, lite_handshake(9), SERVER));
    assert!(ack.success);
    assert_eq!((ack.producer_id, ack.accepted_epoch), (0, 0));
}

#[test]
fn signing_keys_are_for_clients_with_a_token() {
    let mut session = SyncSession::new("s".into());
    let trust = reply(trusted(&mut session, make_handshake(4), WITH_SIGNING));
    assert!(trust.success);
    assert_eq!(trust.delta_signing_key, [0; 32]);

    let granted = |session: &mut SyncSession| match begin(session, token_handshake("t"), WITH_SIGNING) {
        HandshakeStep::ValidateToken(attempt) => match session.token_validated(attempt, Ok(replica())) {
            HandshakeStep::LoadSigningKey(g) => g,
            _ => panic!("expected the key to be asked for"),
        },
        _ => panic!("expected the token to be validated"),
    };
    let g = granted(&mut session);
    let ack = reply(session.signing_key_loaded(g, Some([7; 32])));
    assert!(ack.success);
    assert_eq!(ack.delta_signing_key, [7; 32]);
    assert_eq!(session.delta_signing_key, Some([7; 32]));

    let g = granted(&mut session);
    let ack = reply(session.signing_key_loaded(g, None));
    assert!(!ack.success && !ack.fork_detected);
    assert_eq!(ack.error.as_deref(), Some("SYNC_UNAVAILABLE: signing key persistence failed"));
    assert_unbound(&session);
}

#[test]
fn a_session_takes_over_what_the_client_says() {
    let mut session = SyncSession::new("s".into());
    let mut first = TextMap::new();
    first.insert("p1".into(), 4);
    first.insert("p2".into(), 11);
    let mut second = TextMap::new();
    second.insert("p1".into(), 9);
    let mut msg = make_handshake(4);
    msg.vector_clock.insert("orders".into(), first);
    msg.vector_clock.insert("users".into(), second);
    msg.subscribed_shapes.push("shape".into());
    let mut clock = TextMap::new();
    clock.insert("orders".into(), 20);
    let step = session.handle_handshake(msg, VERSIONS, clock, SERVER, 5);
    let ack = match step {
        HandshakeStep::ResolveTrustIdentity(attempt) => {
            reply(session.trust_identity_resolved(attempt, Some(superuser())))
        }
        _ => panic!("expected the trust identity to be asked for"),
    };
    assert!(ack.success);
    assert_eq!(ack.server_clock.get("orders"), Some(&20));
    assert_eq!(ack.server_wire_version, 4);
    assert_eq!(session.server_clock.get("orders"), Some(&20));
    assert_eq!(session.last_seen_lsn, 11);
    assert_eq!(session.client_clock.get("orders").unwrap().get("p2"), Some(&11));
    assert_eq!(session.subscribed_shapes, vec!["shape"]);
    assert_eq!(session.device_metadata.client_version, "test");
    assert_eq!(session.username.as_deref(), Some("nodedb"));
    assert_eq!(session.last_activity_ms, 5);
}

#[test]
fn an_unresolved_trust_identity_and_a_new_version_are_refused() {
    let mut session = SyncSession::new("s".into());
    seed(&mut session);
    let ack = match begin(&mut session, make_handshake(4), SERVER) {
        HandshakeStep::ResolveTrustIdentity(a) => reply(session.trust_identity_resolved(a, None)),
        _ => panic!("expected the trust identity to be asked for"),
    };
    assert_eq!(ack.error.as_deref(), Some("configured trust identity is unavailable"));
    assert_unbound(&session);
    let ack = reply(begin(&mut session, make_handshake(5), SERVER));
    assert_eq!(ack.error.as_deref(), Some("incompatible wire version: too new"));
    let ack = reply(begin(&mut session, make_handshake(0), SERVER));
    assert_eq!(ack.error.as_deref(), Some("incompatible wire version: too old"));
    assert!(!ack.fork_detected);
}

#[test]
fn missing_write_authority_is_reported_with_role_names() {
    assert!(warn_if_no_write_authority("s", &replica(), true).is_none());
    let report = warn_if_no_write_authority("s", &replica(), false).expect("a report");
    assert_eq!(report.session, "s");
    assert_eq!(report.user, "lite-replica");
    assert_eq!(report.tenant, 7);
    assert_eq!(report.roles, vec!["readwrite", "database_editor:12", "x"]);
}
