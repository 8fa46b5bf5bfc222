//! The handshake of a replica, and the detection of forks.
//!
//! A handshake needs services that take time or fail: a token validator, the registry of Lite
//! replicas, the replicated log, the store of signing keys. [`SyncSession::handle_handshake`] never
//! calls them. It returns a [`HandshakeStep`] that says which service to ask; the answer goes into
//! the method that the step names, which returns the next step, until a step holds the reply to the
//! client. The session is bound to the client only with the reply that says so: on every other way
//! it stays, or becomes, unbound.

use vstd::prelude::*;

use super::session;
use super::session::{BindingView, DeviceMetadata, SessionView, SyncSession};
use super::wire;
use super::wire::{AckView, HandshakeAckMsg, HandshakeMsg, WireVersions};
use crate::error::{Error, ErrorKind};
use crate::identity;
use crate::identity::AuthenticatedIdentity;
use crate::text_map;
use crate::text_map::TextMap;

verus! {

/// What the durable record of Lite replicas says of a handshake.
#[derive(Debug, Clone, Copy, PartialEq, Eq, Structural)]
pub enum FencingDecision {
    /// The replica goes on under this producer and epoch.
    Accept { producer_id: u64, accepted_epoch: u64 },
    /// The epoch is behind the durable record, as that of a cloned device is. The replica has to
    /// take a new identity.
    Reject,
    /// The record could not be consulted or brought up to date. The replica should try again.
    RejectTransient,
}

/// The durable record of a Lite replica.
#[derive(Debug, Clone, Copy, PartialEq, Eq, Structural)]
pub struct ProducerRegistration {
    pub producer_id: u64,
    pub tenant_id: u64,
    pub user_id: u64,
    pub current_epoch: u64,
    pub created_ms: i64,
}

/// How a token is authenticated.
pub enum TokenAuth {
    /// By the validator that the server was configured with, which is still to be asked.
    Static,
    /// By the key registry, which has already answered.
    Registry(Result<AuthenticatedIdentity, String>),
}

/// Which services the server has.
#[derive(Debug, Clone, Copy, PartialEq, Eq, Structural)]
pub struct Services {
    /// Whether the session runs inside a server at all.
    pub available: bool,
    /// Whether there is a registry of Lite replicas.
    pub producer_registry: bool,
    /// Whether the log authenticates what is written to it, so that deltas have to be signed.
    pub payloads_authenticated: bool,
}

/// A handshake whose client is not known yet.
pub struct Attempt {
    pub msg: HandshakeMsg,
    pub versions: WireVersions,
    pub server_clock: TextMap<u64>,
    pub services: Services,
}

/// A handshake whose client is known.
pub struct Candidate {
    pub attempt: Attempt,
    pub identity: AuthenticatedIdentity,
    /// Whether a token told who the client is. If not, the server trusts it.
    pub by_token: bool,
}

/// A handshake that the record of Lite replicas does not stand against.
pub struct Granted {
    pub candidate: Candidate,
    pub producer_id: u64,
    pub accepted_epoch: u64,
}

/// What a handshake needs next.
pub enum HandshakeStep {
    /// Send this reply. The handshake is over.
    Reply(HandshakeAckMsg),
    /// Look up the configured trust identity, then call [`SyncSession::trust_identity_resolved`].
    ResolveTrustIdentity(Attempt),
    /// Validate the token of the message, then call [`SyncSession::token_validated`].
    ValidateToken(Attempt),
    /// Get or create the record of the replica, then call [`SyncSession::producer_registered`]. The
    /// registry calls it a bad request where the record belongs to another tenant or user.
    GetOrRegister(Candidate),
    /// Replicate the record, then call [`SyncSession::registration_proposed`].
    ProposeRegister(Candidate, ProducerRegistration),
    /// Raise the epoch of the record to that of the message, then call
    /// [`SyncSession::producer_fenced`].
    Fence(Candidate, ProducerRegistration),
    /// Replicate the epoch of the message, then call [`SyncSession::fence_proposed`].
    ProposeFence(Candidate, ProducerRegistration),
    /// Get or create the signing key of the client, then call [`SyncSession::signing_key_loaded`].
    LoadSigningKey(Granted),
}

/// What every service answers, should it be asked.
pub struct Answers {
    pub trust_identity: Option<AuthenticatedIdentity>,
    pub token: Result<AuthenticatedIdentity, String>,
    pub registration: Result<ProducerRegistration, Error>,
    pub registration_proposed: bool,
    pub fenced: bool,
    pub fence_proposed: bool,
    pub signing_key: Option<[u8; 32]>,
}

/// Whether `lsn` is the highest position in a clock, zero where it holds none.
pub open spec fn is_highest_lsn(clock: Map<Seq<char>, TextMap<u64>>, lsn: u64) -> bool {
    &&& forall|c: Seq<char>, p: Seq<char>|
        clock.contains_key(c) && (#[trigger] clock[c])@.contains_key(p) ==> (
        #[trigger] clock[c]@[p]) <= lsn
    &&& lsn == 0 || exists|c: Seq<char>, p: Seq<char>|
        clock.contains_key(c) && (#[trigger] clock[c])@.contains_key(p) && (
        #[trigger] clock[c]@[p]) == lsn
}

/// The highest position in a clock, zero where it holds none.
pub open spec fn highest_lsn(clock: Map<Seq<char>, TextMap<u64>>) -> u64 {
    choose|lsn: u64| is_highest_lsn(clock, lsn)
}

proof fn lemma_highest_lsn(clock: Map<Seq<char>, TextMap<u64>>, lsn: u64)
    requires
        is_highest_lsn(clock, lsn),
    ensures
        highest_lsn(clock) == lsn,
{
    let other = highest_lsn(clock);
    assert(is_highest_lsn(clock, other));
    if other != 0 {
        let (c, p) = choose|c: Seq<char>, p: Seq<char>|
            clock.contains_key(c) && (#[trigger] clock[c])@.contains_key(p) && (
            #[trigger] clock[c]@[p]) == other;
        assert(clock[c]@[p] <= lsn);
    }
    if lsn != 0 {
        let (c, p) = choose|c: Seq<char>, p: Seq<char>|
            clock.contains_key(c) && (#[trigger] clock[c])@.contains_key(p) && (
            #[trigger] clock[c]@[p]) == lsn;
        assert(clock[c]@[p] <= other);
    }
}

/// The answer that turns a client away.
pub open spec fn refusal(
    s: SessionView,
    versions: WireVersions,
    clock: Map<Seq<char>, u64>,
    message: Seq<char>,
    fork_detected: bool,
) -> AckView {
    AckView {
        success: false,
        session_id: s.session_id,
        server_clock: clock,
        error: Some(message),
        fork_detected,
        server_wire_version: versions.current,
        producer_id: 0,
        accepted_epoch: 0,
        delta_signing_key: wire::no_key(),
    }
}

/// What a session knows that has taken the client in.
pub open spec fn bound(g: Granted, key: Option<[u8; 32]>) -> BindingView {
    let msg = g.candidate.attempt.msg;
    let identity = g.candidate.identity;
    BindingView {
        tenant_id: Some(identity.tenant_id),
        username: Some(identity.username@),
        identity: Some(identity),
        authenticated: true,
        client_clock: msg.vector_clock@,
        server_clock: g.candidate.attempt.server_clock@,
        subscribed_shapes: msg.subscribed_shapes@,
        last_seen_lsn: highest_lsn(msg.vector_clock@),
        producer_id: g.producer_id,
        accepted_epoch: g.accepted_epoch,
        delta_signing_key: key,
        device_metadata: session::device_of(msg.client_version@),
        tracked_collections: Seq::empty(),
        announced_collections: Seq::empty(),
    }
}

/// The outcome of a handshake that takes the client in.
pub open spec fn welcome(s: SessionView, g: Granted, key: Option<[u8; 32]>) -> (
    SessionView,
    AckView,
) {
    (
        SessionView { binding: bound(g, key), ..s },
        AckView {
            success: true,
            session_id: s.session_id,
            server_clock: g.candidate.attempt.server_clock@,
            error: None,
            fork_detected: false,
            server_wire_version: g.candidate.attempt.versions.current,
            producer_id: g.producer_id,
            accepted_epoch: g.accepted_epoch,
            delta_signing_key: match key {
                Some(key) => key@,
                None => wire::no_key(),
            },
        },
    )
}

/// The outcome of a handshake that turns the client away.
pub open spec fn turned_away(s: SessionView, attempt: Attempt, message: Seq<char>, fork: bool) -> (
    SessionView,
    AckView,
) {
    (
        SessionView { binding: session::unbound(), ..s },
        refusal(s, attempt.versions, attempt.server_clock@, message, fork),
    )
}

/// What the record of Lite replicas says of a handshake, given what the services answer. It says
/// nothing where the client is no Lite replica or the server keeps no record.
pub open spec fn fencing(attempt: Attempt, a: Answers) -> Option<FencingDecision> {
    let epoch = attempt.msg.epoch;
    if attempt.msg.lite_id@.len() == 0 || epoch == 0 || !attempt.services.available
        || !attempt.services.producer_registry {
        None
    } else {
        Some(
            match a.registration {
                Err(e) => if e.kind is BadRequest {
                    FencingDecision::Reject
                } else {
                    FencingDecision::RejectTransient
                },
                Ok(existing) => if !a.registration_proposed {
                    FencingDecision::RejectTransient
                } else if epoch < existing.current_epoch {
                    FencingDecision::Reject
                } else if epoch > existing.current_epoch && !a.fenced {
                    FencingDecision::RejectTransient
                } else if !a.fence_proposed {
                    FencingDecision::RejectTransient
                } else {
                    FencingDecision::Accept {
                        producer_id: existing.producer_id,
                        accepted_epoch: epoch,
                    }
                },
            },
        )
    }
}

/// Whether the client has to be given a signing key.
pub open spec fn needs_key(c: Candidate) -> bool {
    c.by_token && c.attempt.services.available && c.attempt.services.payloads_authenticated
}

/// The outcome of a handshake that the record does not stand against.
pub open spec fn granted(s: SessionView, g: Granted, a: Answers) -> (SessionView, AckView) {
    if needs_key(g.candidate) {
        match a.signing_key {
            Some(key) => welcome(s, g, Some(key)),
            None => turned_away(
                s,
                g.candidate.attempt,
                "SYNC_UNAVAILABLE: signing key persistence failed"@,
                false,
            ),
        }
    } else {
        welcome(s, g, None)
    }
}

/// The outcome of a handshake once the record has spoken.
pub open spec fn decided(
    s: SessionView,
    c: Candidate,
    decision: Option<FencingDecision>,
    a: Answers,
) -> (SessionView, AckView) {
    match decision {
        Some(FencingDecision::Reject) => turned_away(
            s,
            c.attempt,
            "FORK_DETECTED: stale epoch — regenerate LiteId and reconnect"@,
            true,
        ),
        Some(FencingDecision::RejectTransient) => turned_away(
            s,
            c.attempt,
            "SYNC_UNAVAILABLE: transient server error — retry the handshake"@,
            false,
        ),
        Some(FencingDecision::Accept { producer_id, accepted_epoch }) => granted(
            s,
            Granted { candidate: c, producer_id, accepted_epoch },
            a,
        ),
        None => granted(s, Granted { candidate: c, producer_id: 0, accepted_epoch: 0 }, a),
    }
}

/// The outcome of a handshake whose client is known.
pub open spec fn admission(s: SessionView, c: Candidate, a: Answers) -> (SessionView, AckView) {
    decided(s, c, fencing(c.attempt, a), a)
}

/// The outcome of a handshake whose token has been looked at.
pub open spec fn by_token(
    s: SessionView,
    attempt: Attempt,
    validated: Result<AuthenticatedIdentity, String>,
    a: Answers,
) -> (SessionView, AckView) {
    match validated {
        Ok(identity) => admission(s, Candidate { attempt, identity, by_token: true }, a),
        Err(e) => (
            SessionView { binding: session::unbound(), ..s },
            refusal(s, attempt.versions, Map::empty(), e@, false),
        ),
    }
}

/// The outcome of a handshake without a token, once the trust identity has been looked up.
pub open spec fn by_trust(
    s: SessionView,
    attempt: Attempt,
    resolved: Option<AuthenticatedIdentity>,
    a: Answers,
) -> (SessionView, AckView) {
    match resolved {
        Some(identity) => admission(s, Candidate { attempt, identity, by_token: false }, a),
        None => turned_away(s, attempt, "configured trust identity is unavailable"@, false),
    }
}

/// The outcome of a handshake from its beginning: how the session stands afterwards, and what the
/// client is told.
pub open spec fn handshake(
    s: SessionView,
    attempt: Attempt,
    auth: TokenAuth,
    now_ms: u64,
    a: Answers,
) -> (SessionView, AckView) {
    let s = SessionView { binding: session::unbound(), last_activity_ms: now_ms, ..s };
    let version = attempt.msg.wire_version;
    if !attempt.versions.takes(version) {
        turned_away(
            s,
            attempt,
            "incompatible wire version: "@ + attempt.versions.refusal(version),
            false,
        )
    } else if attempt.msg.jwt_token@.len() == 0 {
        by_trust(
            s,
            attempt,
            if attempt.services.available {
                a.trust_identity
            } else {
                None
            },
            a,
        )
    } else {
        by_token(
            s,
            attempt,
            match auth {
                TokenAuth::Static => a.token,
                TokenAuth::Registry(verified) => verified,
            },
            a,
        )
    }
}

/// The outcome of a handshake that has come as far as `step`.
pub open spec fn settled(s: SessionView, step: HandshakeStep, a: Answers) -> (SessionView, AckView) {
    match step {
        HandshakeStep::Reply(ack) => (s, ack@),
        HandshakeStep::ResolveTrustIdentity(attempt) => by_trust(s, attempt, a.trust_identity, a),
        HandshakeStep::ValidateToken(attempt) => by_token(s, attempt, a.token, a),
        HandshakeStep::GetOrRegister(c) => decided(s, c, fencing(c.attempt, a), a),
        HandshakeStep::ProposeRegister(c, existing) => decided(
            s,
            c,
            fencing(c.attempt, Answers { registration: Ok(existing), ..a }),
            a,
        ),
        HandshakeStep::Fence(c, existing) => decided(
            s,
            c,
            fencing(
                c.attempt,
                Answers { registration: Ok(existing), registration_proposed: true, ..a },
            ),
            a,
        ),
        HandshakeStep::ProposeFence(c, existing) => decided(
            s,
            c,
            fencing(
                c.attempt,
                Answers {
                    registration: Ok(existing),
                    registration_proposed: true,
                    fenced: true,
                    ..a
                },
            ),
            a,
        ),
        HandshakeStep::LoadSigningKey(g) => granted(s, g, a),
    }
}

/// Whether a handshake can have come as far as `step`: a record is consulted only for a Lite replica
/// and where there is one, a record is fenced or its fence replicated only where the epoch of the
/// message is not behind it, and a key is loaded only for a client that needs one.
pub open spec fn reachable(step: HandshakeStep) -> bool {
    match step {
        HandshakeStep::Reply(_) => true,
        HandshakeStep::ResolveTrustIdentity(_) => true,
        HandshakeStep::ValidateToken(_) => true,
        HandshakeStep::GetOrRegister(c) => fenced_by_record(c.attempt),
        HandshakeStep::ProposeRegister(c, _) => fenced_by_record(c.attempt),
        HandshakeStep::Fence(c, existing) => fenced_by_record(c.attempt) && c.attempt.msg.epoch
            > existing.current_epoch,
        HandshakeStep::ProposeFence(c, existing) => fenced_by_record(c.attempt)
            && c.attempt.msg.epoch >= existing.current_epoch,
        HandshakeStep::LoadSigningKey(g) => needs_key(g.candidate),
    }
}

/// Whether the record of Lite replicas has a say in the handshake.
pub open spec fn fenced_by_record(attempt: Attempt) -> bool {
    attempt.msg.lite_id@.len() > 0 && attempt.msg.epoch > 0 && attempt.services.available
        && attempt.services.producer_registry
}

/// Whether the step hands on this attempt as it came, to whatever service it asks.
pub open spec fn is_about(step: HandshakeStep, attempt: Attempt) -> bool {
    match step {
        HandshakeStep::Reply(_) => true,
        HandshakeStep::ResolveTrustIdentity(x) => x == attempt,
        HandshakeStep::ValidateToken(x) => x == attempt,
        HandshakeStep::GetOrRegister(c) => c.attempt == attempt,
        HandshakeStep::ProposeRegister(c, _) => c.attempt == attempt,
        HandshakeStep::Fence(c, _) => c.attempt == attempt,
        HandshakeStep::ProposeFence(c, _) => c.attempt == attempt,
        HandshakeStep::LoadSigningKey(g) => g.candidate.attempt == attempt,
    }
}

/// Whether the step is about this client and hands on what is known of it as it came.
pub open spec fn is_for(step: HandshakeStep, candidate: Candidate) -> bool {
    match step {
        HandshakeStep::Reply(_) => true,
        HandshakeStep::ResolveTrustIdentity(_) => false,
        HandshakeStep::ValidateToken(_) => false,
        HandshakeStep::GetOrRegister(c) => c == candidate,
        HandshakeStep::ProposeRegister(c, _) => c == candidate,
        HandshakeStep::Fence(c, _) => c == candidate,
        HandshakeStep::ProposeFence(c, _) => c == candidate,
        HandshakeStep::LoadSigningKey(g) => g.candidate == candidate,
    }
}

/// Whether the step hands on this record as it came, where it hands one on.
pub open spec fn carries(step: HandshakeStep, record: ProducerRegistration) -> bool {
    match step {
        HandshakeStep::ProposeRegister(_, e) => e == record,
        HandshakeStep::Fence(_, e) => e == record,
        HandshakeStep::ProposeFence(_, e) => e == record,
        _ => true,
    }
}

/// How many steps a handshake can still take.
pub open spec fn steps_left(step: HandshakeStep) -> nat {
    match step {
        HandshakeStep::Reply(_) => 0,
        HandshakeStep::LoadSigningKey(_) => 1,
        HandshakeStep::ProposeFence(_, _) => 2,
        HandshakeStep::Fence(_, _) => 3,
        HandshakeStep::ProposeRegister(_, _) => 4,
        HandshakeStep::GetOrRegister(_) => 5,
        HandshakeStep::ResolveTrustIdentity(_) => 6,
        HandshakeStep::ValidateToken(_) => 6,
    }
}

/// The highest position in a clock, zero where it holds none.
fn last_position(clock: &TextMap<TextMap<u64>>) -> (r: u64)
    ensures
        r == highest_lsn(clock@),
{
    let outer = clock.entries();
    let mut best: u64 = 0;
    let ghost mut at: (Seq<char>, Seq<char>) = (Seq::empty(), Seq::empty());
    let mut i: usize = 0;
    while i < outer.len()
        invariant
            text_map::keys_rise(outer@),
            text_map::map_of(outer@) == clock@,
            i <= outer@.len(),
            forall|j: int, p: Seq<char>|
                0 <= j < i && (#[trigger] outer@[j]).value@.contains_key(p) ==> (
                #[trigger] outer@[j].value@[p]) <= best,
            best == 0 || clock@.contains_key(at.0) && clock@[at.0]@.contains_key(at.1)
                && clock@[at.0]@[at.1] == best,
        decreases outer@.len() - i,
    {
        let peers = outer[i].value.entries();
        let ghost name = outer@[i as int].key@;
        proof {
            text_map::lemma_map_of(outer@, name);
        }
        let mut k: usize = 0;
        let ghost floor = best;
        while k < peers.len()
            invariant
                text_map::keys_rise(peers@),
                text_map::map_of(peers@) == clock@[name]@,
                clock@.contains_key(name),
                k <= peers@.len(),
                best >= floor,
                forall|j: int| 0 <= j < k ==> (#[trigger] peers@[j]).value <= best,
                best == 0 || clock@.contains_key(at.0) && clock@[at.0]@.contains_key(at.1)
                    && clock@[at.0]@[at.1] == best,
            decreases peers@.len() - k,
        {
            if peers[k].value > best {
                best = peers[k].value;
                proof {
                    at = (name, peers@[k as int].key@);
                    text_map::lemma_map_of(peers@, at.1);
                }
            }
            k += 1;
        }
        assert forall|p: Seq<char>| outer@[i as int].value@.contains_key(p) implies (
        #[trigger] outer@[i as int].value@[p]) <= best by {
            text_map::lemma_map_of(peers@, p);
        }
        i += 1;
    }
    assert(is_highest_lsn(clock@, best)) by {
        assert forall|c: Seq<char>, p: Seq<char>|
            clock@.contains_key(c) && (#[trigger] clock@[c])@.contains_key(p) implies (
        #[trigger] clock@[c]@[p]) <= best by {
            text_map::lemma_map_of(outer@, c);
            let j = choose|j: int| 0 <= j < outer@.len() && (#[trigger] outer@[j]).key@ == c;
            assert(outer@[j].value@.contains_key(p));
            assert(outer@[j].value@[p] <= best);
        }
        if best != 0 {
            assert(clock@[at.0]@[at.1] == best);
        }
    }
    proof {
        lemma_highest_lsn(clock@, best);
    }
    best
}

/// Whether a record belongs to this user of this tenant.
pub fn producer_owner_matches(
    registration: &ProducerRegistration,
    tenant_id: u64,
    user_id: u64,
) -> (r: bool)
    ensures
        r == (registration.tenant_id == tenant_id && registration.user_id == user_id),
{
    registration.tenant_id == tenant_id && registration.user_id == user_id
}

/// What there is to report of a client that was taken in and may write nothing tenant-wide. Every
/// delta that it pushes will be refused, unless it holds grants on collections.
pub struct NoWriteAuthority {
    pub session: String,
    pub user: String,
    pub tenant: u64,
    pub roles: Vec<String>,
}

/// Reports a client without tenant-wide write authority. This is a diagnosis, not a gate: grants on
/// collections are not known here, so the session is accepted either way.
pub fn warn_if_no_write_authority(
    session_id: &str,
    identity: &AuthenticatedIdentity,
    may_write: bool,
) -> (r: Option<NoWriteAuthority>)
    ensures
        r is None <==> may_write,
        r matches Some(report) ==> {
            &&& report.session@ == session_id@
            &&& report.user@ == identity.username@
            &&& report.tenant == identity.tenant_id.0
            &&& report.roles@.len() == identity.roles@.len()
            &&& forall|i: int|
                0 <= i < report.roles@.len() ==> (#[trigger] report.roles@[i])@
                    == identity::role_name(identity.roles@[i]@)
        },
{
    if may_write {
        return None;
    }
    Some(
        NoWriteAuthority {
            session: session_id.to_owned(),
            user: identity.username.clone(),
            tenant: identity.tenant_id.as_u64(),
            roles: identity.role_names(),
        },
    )
}

impl SyncSession {
    /// The answer that turns a client away.
    fn build_reject_frame(
        &self,
        versions: &WireVersions,
        server_clock: TextMap<u64>,
        message: &str,
        fork_detected: bool,
    ) -> (r: HandshakeAckMsg)
        ensures
            r@ == refusal(self@, *versions, server_clock@, message@, fork_detected),
    {
        let key: [u8; 32] = [0; 32];
        assert(key@ =~= wire::no_key());
        HandshakeAckMsg {
            success: false,
            session_id: self.session_id.clone(),
            server_clock,
            error: Some(message.to_owned()),
            fork_detected,
            server_wire_version: versions.current,
            producer_id: 0,
            accepted_epoch: 0,
            delta_signing_key: key,
        }
    }

    /// The answer to a handshake whose message could not be read. It says nothing of why.
    pub fn malformed_handshake_reject_frame(&self, versions: &WireVersions) -> (r: HandshakeAckMsg)
        ensures
            r@ == refusal(self@, *versions, Map::empty(), "malformed handshake"@, false),
    {
        self.build_reject_frame(versions, TextMap::new(), "malformed handshake", false)
    }

    /// Unbinds the session and tells the client that it has been forked: it has to give up what it
    /// holds.
    fn fork_reject_frame(&mut self, attempt: Attempt, message: &str) -> (r: HandshakeStep)
        ensures
            r is Reply,
            (final(self)@, r->Reply_0@) == turned_away(old(self)@, attempt, message@, true),
    {
        self.clear_handshake_binding();
        HandshakeStep::Reply(
            self.build_reject_frame(&attempt.versions, attempt.server_clock, message, true),
        )
    }

    /// Unbinds the session and tells the client that it may try again.
    fn transient_reject_frame(&mut self, attempt: Attempt, message: &str) -> (r: HandshakeStep)
        ensures
            r is Reply,
            (final(self)@, r->Reply_0@) == turned_away(old(self)@, attempt, message@, false),
    {
        self.clear_handshake_binding();
        HandshakeStep::Reply(
            self.build_reject_frame(&attempt.versions, attempt.server_clock, message, false),
        )
    }

    /// Binds the session to the client and tells it so.
    fn welcome(&mut self, g: Granted, key: Option<[u8; 32]>) -> (r: HandshakeStep)
        ensures
            r is Reply,
            (final(self)@, r->Reply_0@) == welcome(old(self)@, g, key),
    {
        let Granted { candidate, producer_id, accepted_epoch } = g;
        let Candidate { attempt, identity, by_token: _ } = candidate;
        let Attempt { msg, versions, server_clock, services: _ } = attempt;
        let HandshakeMsg {
            jwt_token: _,
            vector_clock,
            subscribed_shapes,
            client_version,
            lite_id: _,
            epoch: _,
            wire_version: _,
        } = msg;
        self.clear_handshake_binding();
        self.tenant_id = Some(identity.tenant_id);
        self.username = Some(identity.username.clone());
        self.identity = Some(identity);
        self.authenticated = true;
        self.last_seen_lsn = last_position(&vector_clock);
        self.client_clock = vector_clock;
        self.subscribed_shapes = subscribed_shapes;
        self.server_clock = server_clock.copied();
        self.producer_id = producer_id;
        self.accepted_epoch = accepted_epoch;
        self.delta_signing_key = key;
        self.device_metadata = DeviceMetadata {
            client_version,
            remote_addr: String::new(),
            peer_id: 0,
        };
        let no_key: [u8; 32] = [0; 32];
        assert(no_key@ =~= wire::no_key());
        HandshakeStep::Reply(
            HandshakeAckMsg {
                success: true,
                session_id: self.session_id.clone(),
                server_clock,
                error: None,
                fork_detected: false,
                server_wire_version: versions.current,
                producer_id,
                accepted_epoch,
                delta_signing_key: match key {
                    Some(key) => key,
                    None => no_key,
                },
            },
        )
    }

    /// Begins a handshake with a token that the configured validator is to look at, or without one.
    pub fn handle_handshake(
        &mut self,
        msg: HandshakeMsg,
        versions: WireVersions,
        current_server_clock: TextMap<u64>,
        services: Services,
        now_ms: u64,
    ) -> (r: HandshakeStep)
        ensures
            reachable(r),
            r !is Reply ==> final(self)@ == (SessionView {
                binding: session::unbound(),
                last_activity_ms: now_ms,
                ..old(self)@
            }),
            is_about(
                r,
                Attempt { msg, versions, server_clock: current_server_clock, services },
            ),
            forall|a: Answers| #[trigger]
                settled(final(self)@, r, a) == handshake(
                    old(self)@,
                    Attempt { msg, versions, server_clock: current_server_clock, services },
                    TokenAuth::Static,
                    now_ms,
                    a,
                ),
    {
        self.handshake_with_auth(
            msg,
            TokenAuth::Static,
            versions,
            current_server_clock,
            services,
            now_ms,
        )
    }

    /// Begins a handshake with a token that the key registry has already looked at. Who the client
    /// is, and of which tenant, is what the registry says.
    pub fn handle_handshake_verified(
        &mut self,
        msg: HandshakeMsg,
        verified: Result<AuthenticatedIdentity, String>,
        versions: WireVersions,
        current_server_clock: TextMap<u64>,
        services: Services,
        now_ms: u64,
    ) -> (r: HandshakeStep)
        ensures
            reachable(r),
            r !is Reply ==> final(self)@ == (SessionView {
                binding: session::unbound(),
                last_activity_ms: now_ms,
                ..old(self)@
            }),
            verified is Ok && msg.jwt_token@.len() > 0 ==> is_for(
                r,
                Candidate {
                    attempt: Attempt {
                        msg,
                        versions,
                        server_clock: current_server_clock,
                        services,
                    },
                    identity: verified->Ok_0,
                    by_token: true,
                },
            ),
            is_about(
                r,
                Attempt { msg, versions, server_clock: current_server_clock, services },
            ),
            r !is ValidateToken,
            forall|a: Answers| #[trigger]
                settled(final(self)@, r, a) == handshake(
                    old(self)@,
                    Attempt { msg, versions, server_clock: current_server_clock, services },
                    TokenAuth::Registry(verified),
                    now_ms,
                    a,
                ),
    {
        self.handshake_with_auth(
            msg,
            TokenAuth::Registry(verified),
            versions,
            current_server_clock,
            services,
            now_ms,
        )
    }

    /// Begins a handshake. What an earlier one bound the session to is forgotten first, so that no
    /// failure leaves the session able to act under it.
    fn handshake_with_auth(
        &mut self,
        msg: HandshakeMsg,
        auth: TokenAuth,
        versions: WireVersions,
        current_server_clock: TextMap<u64>,
        services: Services,
        now_ms: u64,
    ) -> (r: HandshakeStep)
        ensures
            reachable(r),
            r !is Reply ==> final(self)@ == (SessionView {
                binding: session::unbound(),
                last_activity_ms: now_ms,
                ..old(self)@
            }),
            auth is Registry && auth->Registry_0 is Ok && msg.jwt_token@.len() > 0 ==> is_for(
                r,
                Candidate {
                    attempt: Attempt {
                        msg,
                        versions,
                        server_clock: current_server_clock,
                        services,
                    },
                    identity: auth->Registry_0->Ok_0,
                    by_token: true,
                },
            ),
            is_about(
                r,
                Attempt { msg, versions, server_clock: current_server_clock, services },
            ),
            r is ValidateToken ==> auth is Static,
            forall|a: Answers| #[trigger]
                settled(final(self)@, r, a) == handshake(
                    old(self)@,
                    Attempt { msg, versions, server_clock: current_server_clock, services },
                    auth,
                    now_ms,
                    a,
                ),
    {
        self.clear_handshake_binding();
        self.last_activity_ms = now_ms;
        let version = msg.wire_version;
        let attempt = Attempt { msg, versions, server_clock: current_server_clock, services };
        match versions.check_wire_compatibility(version) {
            Err(reason) => {
                let message = "incompatible wire version: ".to_owned().concat(reason);
                return self.transient_reject_frame(attempt, message.as_str());
            },
            Ok(()) => {},
        }
        if attempt.msg.jwt_token.as_str().is_empty() {
            if !services.available {
                return self.trust_identity_resolved(attempt, None);
            }
            return HandshakeStep::ResolveTrustIdentity(attempt);
        }
        match auth {
            TokenAuth::Static => HandshakeStep::ValidateToken(attempt),
            TokenAuth::Registry(verified) => self.token_validated(attempt, verified),
        }
    }

    /// Goes on with a handshake without a token, given the configured trust identity. An identity
    /// is never made up.
    pub fn trust_identity_resolved(
        &mut self,
        attempt: Attempt,
        resolved: Option<AuthenticatedIdentity>,
    ) -> (r: HandshakeStep)
        ensures
            reachable(r),
            r !is Reply ==> final(self)@ == old(self)@,
            match resolved {
                Some(identity) => is_for(r, Candidate { attempt, identity, by_token: false }),
                None => r is Reply,
            },
            steps_left(r) < steps_left(HandshakeStep::ResolveTrustIdentity(attempt)),
            forall|a: Answers| #[trigger]
                settled(final(self)@, r, a) == by_trust(old(self)@, attempt, resolved, a),
    {
        match resolved {
            Some(identity) => self.admit_candidate(
                Candidate { attempt, identity, by_token: false },
            ),
            None => self.transient_reject_frame(
                attempt,
                "configured trust identity is unavailable",
            ),
        }
    }

    /// Goes on with a handshake, given who the token says that the client is, or why it is refused.
    pub fn token_validated(
        &mut self,
        attempt: Attempt,
        validated: Result<AuthenticatedIdentity, String>,
    ) -> (r: HandshakeStep)
        ensures
            reachable(r),
            r !is Reply ==> final(self)@ == old(self)@,
            match validated {
                Ok(identity) => is_for(r, Candidate { attempt, identity, by_token: true }),
                Err(_) => r is Reply,
            },
            steps_left(r) < steps_left(HandshakeStep::ValidateToken(attempt)),
            forall|a: Answers| #[trigger]
                settled(final(self)@, r, a) == by_token(old(self)@, attempt, validated, a),
    {
        match validated {
            Ok(identity) => self.admit_candidate(Candidate { attempt, identity, by_token: true }),
            Err(e) => {
                self.clear_handshake_binding();
                HandshakeStep::Reply(
                    self.build_reject_frame(&attempt.versions, TextMap::new(), e.as_str(), false),
                )
            },
        }
    }

    /// Goes on with a handshake whose client is known: consults the record of Lite replicas where
    /// it has a say.
    fn admit_candidate(&mut self, candidate: Candidate) -> (r: HandshakeStep)
        ensures
            reachable(r),
            r !is Reply ==> final(self)@ == old(self)@,
            is_for(r, candidate),
            steps_left(r) < 6,
            forall|a: Answers| #[trigger]
                settled(final(self)@, r, a) == admission(old(self)@, candidate, a),
    {
        let attempt = &candidate.attempt;
        if attempt.msg.lite_id.as_str().is_empty() || attempt.msg.epoch == 0
            || !attempt.services.available || !attempt.services.producer_registry {
            self.durable_fencing_decision(candidate, None)
        } else {
            HandshakeStep::GetOrRegister(candidate)
        }
    }

    /// Goes on with a handshake, given the record of the replica, which is replicated whether it is
    /// new or not: it may have been written and not replicated before.
    pub fn producer_registered(
        &mut self,
        candidate: Candidate,
        registration: Result<ProducerRegistration, Error>,
    ) -> (r: HandshakeStep)
        requires
            reachable(HandshakeStep::GetOrRegister(candidate)),
        ensures
            reachable(r),
            r !is Reply ==> final(self)@ == old(self)@,
            is_for(r, candidate),
            match registration {
                Ok(existing) => carries(r, existing),
                Err(_) => r is Reply,
            },
            steps_left(r) < steps_left(HandshakeStep::GetOrRegister(candidate)),
            forall|a: Answers|
                a.registration == registration ==> #[trigger] settled(final(self)@, r, a)
                    == settled(old(self)@, HandshakeStep::GetOrRegister(candidate), a),
    {
        match registration {
            Ok(existing) => HandshakeStep::ProposeRegister(candidate, existing),
            Err(e) => {
                let decision = match e.kind {
                    ErrorKind::BadRequest { .. } => FencingDecision::Reject,
                    _ => FencingDecision::RejectTransient,
                };
                self.durable_fencing_decision(candidate, Some(decision))
            },
        }
    }

    /// Goes on with a handshake, given whether the record was replicated. An epoch behind the record
    /// is a fork.
    pub fn registration_proposed(
        &mut self,
        candidate: Candidate,
        existing: ProducerRegistration,
        proposed: bool,
    ) -> (r: HandshakeStep)
        requires
            reachable(HandshakeStep::ProposeRegister(candidate, existing)),
        ensures
            reachable(r),
            r !is Reply ==> final(self)@ == old(self)@,
            is_for(r, candidate),
            carries(r, existing),
            steps_left(r) < steps_left(HandshakeStep::ProposeRegister(candidate, existing)),
            forall|a: Answers|
                a.registration_proposed == proposed ==> #[trigger] settled(final(self)@, r, a)
                    == settled(old(self)@, HandshakeStep::ProposeRegister(candidate, existing), a),
    {
        if !proposed {
            return self.durable_fencing_decision(
                candidate,
                Some(FencingDecision::RejectTransient),
            );
        }
        let epoch = candidate.attempt.msg.epoch;
        if epoch < existing.current_epoch {
            self.durable_fencing_decision(candidate, Some(FencingDecision::Reject))
        } else if epoch > existing.current_epoch {
            HandshakeStep::Fence(candidate, existing)
        } else {
            HandshakeStep::ProposeFence(candidate, existing)
        }
    }

    /// Goes on with a handshake, given whether the epoch of the record was raised.
    pub fn producer_fenced(
        &mut self,
        candidate: Candidate,
        existing: ProducerRegistration,
        fenced: bool,
    ) -> (r: HandshakeStep)
        requires
            reachable(HandshakeStep::Fence(candidate, existing)),
        ensures
            reachable(r),
            r !is Reply ==> final(self)@ == old(self)@,
            is_for(r, candidate),
            carries(r, existing),
            steps_left(r) < steps_left(HandshakeStep::Fence(candidate, existing)),
            forall|a: Answers|
                a.fenced == fenced ==> #[trigger] settled(final(self)@, r, a) == settled(
                    old(self)@,
                    HandshakeStep::Fence(candidate, existing),
                    a,
                ),
    {
        if fenced {
            HandshakeStep::ProposeFence(candidate, existing)
        } else {
            self.durable_fencing_decision(candidate, Some(FencingDecision::RejectTransient))
        }
    }

    /// Goes on with a handshake, given whether the epoch was replicated. It is replicated even where
    /// the record already held it: it may have been raised and not replicated before.
    pub fn fence_proposed(
        &mut self,
        candidate: Candidate,
        existing: ProducerRegistration,
        proposed: bool,
    ) -> (r: HandshakeStep)
        requires
            reachable(HandshakeStep::ProposeFence(candidate, existing)),
        ensures
            reachable(r),
            r !is Reply ==> final(self)@ == old(self)@,
            is_for(r, candidate),
            carries(r, existing),
            steps_left(r) < steps_left(HandshakeStep::ProposeFence(candidate, existing)),
            forall|a: Answers|
                a.fence_proposed == proposed ==> #[trigger] settled(final(self)@, r, a) == settled(
                    old(self)@,
                    HandshakeStep::ProposeFence(candidate, existing),
                    a,
                ),
    {
        if proposed {
            let accepted_epoch = candidate.attempt.msg.epoch;
            self.durable_fencing_decision(
                candidate,
                Some(FencingDecision::Accept { producer_id: existing.producer_id, accepted_epoch }),
            )
        } else {
            self.durable_fencing_decision(candidate, Some(FencingDecision::RejectTransient))
        }
    }

    /// Goes on with a handshake once the record of Lite replicas has spoken, or where it has no say.
    fn durable_fencing_decision(
        &mut self,
        candidate: Candidate,
        decision: Option<FencingDecision>,
    ) -> (r: HandshakeStep)
        ensures
            reachable(r),
            r !is Reply ==> final(self)@ == old(self)@,
            is_for(r, candidate),
            decision == Some(FencingDecision::Reject) || decision == Some(
                FencingDecision::RejectTransient,
            ) ==> r is Reply,
            steps_left(r) < 2,
            forall|a: Answers| #[trigger]
                settled(final(self)@, r, a) == decided(old(self)@, candidate, decision, a),
    {
        match decision {
            Some(FencingDecision::Reject) => self.fork_reject_frame(
                candidate.attempt,
                "FORK_DETECTED: stale epoch — regenerate LiteId and reconnect",
            ),
            Some(FencingDecision::RejectTransient) => self.transient_reject_frame(
                candidate.attempt,
                "SYNC_UNAVAILABLE: transient server error — retry the handshake",
            ),
            Some(FencingDecision::Accept { producer_id, accepted_epoch }) => self.grant(
                Granted { candidate, producer_id, accepted_epoch },
            ),
            None => self.grant(Granted { candidate, producer_id: 0, accepted_epoch: 0 }),
        }
    }

    /// Takes the client in, or asks for the signing key that it has to be given first.
    fn grant(&mut self, g: Granted) -> (r: HandshakeStep)
        ensures
            reachable(r),
            r !is Reply ==> final(self)@ == old(self)@,
            r matches HandshakeStep::LoadSigningKey(x) ==> x == g,
            steps_left(r) < 2,
            forall|a: Answers| #[trigger]
                settled(final(self)@, r, a) == granted(old(self)@, g, a),
    {
        if g.candidate.by_token && g.candidate.attempt.services.available
            && g.candidate.attempt.services.payloads_authenticated {
            HandshakeStep::LoadSigningKey(g)
        } else {
            self.welcome(g, None)
        }
    }

    /// Ends a handshake, given the signing key of the client, if one could be had.
    pub fn signing_key_loaded(&mut self, g: Granted, key: Option<[u8; 32]>) -> (r: HandshakeStep)
        requires
            reachable(HandshakeStep::LoadSigningKey(g)),
        ensures
            r is Reply,
            forall|a: Answers|
                a.signing_key == key ==> #[trigger] settled(final(self)@, r, a) == settled(
                    old(self)@,
                    HandshakeStep::LoadSigningKey(g),
                    a,
                ),
    {
        match key {
            Some(key) => self.welcome(g, Some(key)),
            None => self.transient_reject_frame(
                g.candidate.attempt,
                "SYNC_UNAVAILABLE: signing key persistence failed",
            ),
        }
    }
}

} // verus!
